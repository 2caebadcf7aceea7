//! Path strings: joining and `~/` expansion.

use vstd::prelude::*;
use crate::text::{chars_of, has_prefix, has_suffix, slice_chars, starts_with, string_of};

verus! {

/// `PathBuf::join` on path strings: an absolute `p` replaces `base`; otherwise
/// `p` is appended, with a `/` between unless `base` is empty or ends in one.
pub open spec fn join_path(base: Seq<char>, p: Seq<char>) -> Seq<char> {
    if p.len() > 0 && p[0] == '/' {
        p
    } else if base.len() == 0 {
        p
    } else if base.last() == '/' {
        base + p
    } else {
        base + seq!['/'] + p
    }
}

/// `PathBuf::join` on path strings.
pub fn join(base: &str, p: &str) -> (r: String)
    ensures
        r@ == join_path(base@, p@),
{
    let b = chars_of(base);
    let q = chars_of(p);
    if q.len() > 0 && q[0] == '/' {
        return string_of(q.as_slice());
    }
    if b.len() == 0 {
        return string_of(q.as_slice());
    }
    let mut out = b.clone();
    if b[b.len() - 1] != '/' {
        out.push('/');
    }
    let mut tail = q.clone();
    out.append(&mut tail);
    string_of(out.as_slice())
}

/// `~/rest` expanded under `home`, other paths unchanged; an error when the
/// path needs a home directory and none is known.
pub open spec fn expand_home_spec(path: Seq<char>, home: Option<Seq<char>>) -> Result<
    Seq<char>,
    (),
> {
    if has_prefix(path, "~/"@) {
        match home {
            Some(h) => Ok(join_path(h, path.skip(2))),
            None => Err(()),
        }
    } else {
        Ok(path)
    }
}

/// Replaces a leading `~/` with the home directory.
pub fn expand_home(path: &str, home: Option<&str>) -> (r: Result<String, String>)
    ensures
        match r {
            Ok(p) => expand_home_spec(path@, crate::text::opt_view(home)) == Ok::<Seq<char>, ()>(p@),
            Err(e) => expand_home_spec(path@, crate::text::opt_view(home)) is Err && e@
                == "HOME is not set"@,
        },
{
    let v = chars_of(path);
    let tilde = chars_of("~/");
    if starts_with(v.as_slice(), tilde.as_slice()) {
        proof {
            reveal_strlit("~/");
        }
        match home {
            Some(h) => {
                let rest = string_of(slice_chars(v.as_slice(), 2, v.len()).as_slice());
                assert(rest@ =~= path@.skip(2));
                Ok(join(h, rest.as_str()))
            },
            None => Err(String::from_str("HOME is not set")),
        }
    } else {
        Ok(String::from_str(path))
    }
}

/// The last component of a path string ends with `name` (as a whole component).
pub open spec fn ends_with_component(p: Seq<char>, name: Seq<char>) -> bool {
    has_suffix(p, name) && (p.len() == name.len() || p[p.len() - name.len() - 1] == '/')
}

} // verus!
