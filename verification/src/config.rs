//! Where the holdings file is looked for.
use vstd::prelude::*;
use crate::text::{chars_of, copy_range, push_all, string_of};

verus! {

broadcast use {vstd::string::group_string_axioms, vstd::slice::group_slice_axioms};

/// `part` appended to the path `base` as `Path::join` does on Unix for a
/// relative `part`: a `/` goes between them unless `base` is empty or
/// already ends with one.
pub open spec fn joined(base: Seq<char>, part: Seq<char>) -> Seq<char> {
    if base.len() == 0 || base.last() == '/' {
        base + part
    } else {
        base + seq!['/'] + part
    }
}

/// The holdings file: the path in `$FUND_HOLDINGS` when it is set, else
/// `holdings.json` in the working directory when that file exists, else
/// `.fund-rs/holdings.json` under the home directory (`.` when `$HOME` is
/// unset).
pub open spec fn config_location(
    env_path: Option<Seq<char>>,
    local_exists: bool,
    home: Option<Seq<char>>,
) -> Seq<char> {
    match env_path {
        Some(p) => p,
        None => if local_exists {
            "holdings.json"@
        } else {
            let h = match home {
                Some(h) => h,
                None => "."@,
            };
            joined(joined(h, ".fund-rs"@), "holdings.json"@)
        },
    }
}

fn join_path(base: &[char], part: &[char]) -> (r: Vec<char>)
    ensures
        r@ == joined(base@, part@),
{
    let mut v = copy_range(base, 0, base.len());
    if base.len() > 0 && base[base.len() - 1] != '/' {
        v.push('/');
    }
    push_all(&mut v, part);
    assert(v@ =~= joined(base@, part@));
    v
}

/// Resolves the holdings file from the value of `$FUND_HOLDINGS`, whether
/// `./holdings.json` exists, and the value of `$HOME`.
pub fn config_path_from(env_path: Option<&str>, local_exists: bool, home: Option<&str>) -> (r: String)
    ensures
        r@ == config_location(
            match env_path {
                Some(p) => Some(p@),
                None => None,
            },
            local_exists,
            match home {
                Some(h) => Some(h@),
                None => None,
            },
        ),
{
    match env_path {
        Some(p) => p.to_owned(),
        None => {
            if local_exists {
                String::from_str("holdings.json")
            } else {
                let h = match home {
                    Some(h) => chars_of(h),
                    None => chars_of("."),
                };
                let dir = join_path(&h, &chars_of(".fund-rs"));
                string_of(&join_path(&dir, &chars_of("holdings.json")))
            }
        },
    }
}

} // verus!
