//! The home directory shorthand in a terminal's working directory.

use vstd::prelude::*;
use vstd::string::*;

use crate::text::has_prefix;

verus! {

/// A working directory with `~` standing for the home directory: `~/x`
/// becomes the home directory followed by `/x`, a lone `~` becomes the home
/// directory; without a known home directory, or without `~`, the text is
/// kept.
pub open spec fn expanded(dir: Seq<char>, home: Option<Seq<char>>) -> Seq<char> {
    if "~/"@.is_prefix_of(dir) {
        match home {
            Some(h) => h + dir.subrange(1, dir.len() as int),
            None => dir,
        }
    } else if dir == "~"@ {
        match home {
            Some(h) => h,
            None => dir,
        }
    } else {
        dir
    }
}

pub fn expand_home(dir: &str, home: &Option<String>) -> (r: String)
    ensures
        r@ == expanded(dir@, match home {
            Some(h) => Some(h@),
            None => None,
        }),
{
    if has_prefix(dir, "~/") {
        match home {
            Some(h) => {
                let n = dir.unicode_len();
                proof {
                    reveal_strlit("~/");
                }
                let mut s = h.clone();
                s.append(dir.substring_char(1, n));
                s
            },
            None => String::from_str(dir),
        }
    } else {
        let tilde = String::from_str("~");
        let d = String::from_str(dir);
        if d == tilde {
            match home {
                Some(h) => h.clone(),
                None => d,
            }
        } else {
            d
        }
    }
}

} // verus!
