//! Well-known paths under the configuration home directory.

use vstd::prelude::*;

use crate::strutil::concat_str;

verus! {

/// The directory layout under the home directory.
pub struct Paths;

/// Path builders shared by every component. Each takes the home directory
/// and an optional file name inside the directory it names.
pub trait PathTrait {
    fn sites_path(home: &str, file: Option<&str>) -> (r: String)
        ensures
            r@ == home@ + "/sites"@ + match file {
                Option::Some(f) => "/"@ + f@,
                Option::None => Seq::<char>::empty(),
            },
    ;

    fn certificates_path(home: &str, file: Option<&str>) -> (r: String)
        ensures
            r@ == home@ + "/certificates"@ + match file {
                Option::Some(f) => "/"@ + f@,
                Option::None => Seq::<char>::empty(),
            },
    ;

    fn ca_path(home: &str, file: Option<&str>) -> (r: String)
        ensures
            r@ == home@ + "/ca"@ + match file {
                Option::Some(f) => "/"@ + f@,
                Option::None => Seq::<char>::empty(),
            },
    ;

    fn nginx_path(home: &str, file: Option<&str>) -> (r: String)
        ensures
            r@ == home@ + "/nginx"@ + match file {
                Option::Some(f) => "/"@ + f@,
                Option::None => Seq::<char>::empty(),
            },
    ;
}

/// Appends `/<file>` to `base` when a file name is given.
fn with_file(base: String, file: Option<&str>) -> (r: String)
    ensures
        r@ == base@ + match file {
            Option::Some(f) => "/"@ + f@,
            Option::None => Seq::<char>::empty(),
        },
{
    match file {
        Option::Some(f) => {
            let ghost b = base@;
            let s1 = concat_str(base.as_str(), "/");
            let r = concat_str(s1.as_str(), f);
            proof {
                assert(r@ =~= b + ("/"@ + f@));
            }
            r
        },
        Option::None => {
            proof {
                assert(base@ + Seq::<char>::empty() =~= base@);
            }
            base
        },
    }
}

impl PathTrait for Paths {
    fn sites_path(home: &str, file: Option<&str>) -> (r: String) {
        with_file(concat_str(home, "/sites"), file)
    }

    fn certificates_path(home: &str, file: Option<&str>) -> (r: String) {
        with_file(concat_str(home, "/certificates"), file)
    }

    fn ca_path(home: &str, file: Option<&str>) -> (r: String) {
        with_file(concat_str(home, "/ca"), file)
    }

    fn nginx_path(home: &str, file: Option<&str>) -> (r: String) {
        with_file(concat_str(home, "/nginx"), file)
    }
}

} // verus!
