//! Which file a patch is for, and what is to become of it.

use crate::common::{chars_of, devnull, str_equal, string_of, DEVNULL};
use crate::header::{in_class, run_end, skip_run, CharClass, Span};
use crate::patch::{Config, PatchToy};
use vstd::prelude::*;

verus! {

/// One step fewer, where steps are counted.
pub open spec fn one_less(n: Option<nat>) -> Option<nat> {
    match n {
        Some(k) => Some((k - 1) as nat),
        None => None,
    }
}

/// The name with `n` leading segments taken off, or with all but the last
/// where `n` is `None`. A segment ends with a run of one or more path
/// separators; a name with fewer segments than asked is left with its
/// last one.
pub open spec fn strip_path(s: Seq<char>, n: Option<nat>) -> Seq<char>
    decreases s.len(),
{
    let slash = run_end(s, 0, CharClass::NotSlash);
    let next = run_end(s, slash, CharClass::Slash);
    if n == Some(0nat) || slash >= s.len() || next <= 0 || next > s.len() {
        s
    } else {
        strip_path(s.skip(next), one_less(n))
    }
}

/// A run in the tail of a text ends where it ends in the whole text.
pub proof fn lemma_run_end_shift(s: Seq<char>, base: int, p: int, k: CharClass)
    requires
        0 <= base <= s.len(),
        0 <= p <= s.len() - base,
    ensures
        run_end(s.skip(base), p, k) + base == run_end(s, base + p, k),
    decreases s.len() - base - p,
{
    if p < s.len() - base {
        assert(s.skip(base)[p] == s[base + p]);
        lemma_run_end_shift(s, base, p + 1, k);
    }
}

/// Takes leading segments off a name.
pub fn strip_name(name: &str, strip: Option<usize>) -> (r: String)
    ensures
        r@ == strip_path(
            name@,
            match strip {
                Some(n) => Some(n as nat),
                None => None,
            },
        ),
{
    let v = chars_of(name);
    let mut p: usize = 0;
    let mut left = strip;
    let ghost goal = strip_path(
        v@,
        match strip {
            Some(n) => Some(n as nat),
            None => None,
        },
    );
    proof {
        assert(v@.skip(0) =~= v@);
    }
    loop
        invariant
            p <= v.len(),
            v@ == name@,
            goal == strip_path(
                name@,
                match strip {
                    Some(n) => Some(n as nat),
                    None => None,
                },
            ),
            goal == strip_path(
                v@.skip(p as int),
                match left {
                    Some(n) => Some(n as nat),
                    None => None,
                },
            ),
        decreases v.len() - p,
    {
        let slash = skip_run(&v, p, CharClass::NotSlash);
        let next = skip_run(&v, slash, CharClass::Slash);
        proof {
            lemma_run_end_shift(v@, p as int, 0, CharClass::NotSlash);
            lemma_run_end_shift(v@, p as int, slash - p, CharClass::Slash);
            assert(v@.skip(p as int).skip(next - p) =~= v@.skip(next as int));
            if slash < v.len() {
                assert(in_class(CharClass::Slash, v@[slash as int]));
                assert(next > slash);
            }
        }
        let done = match left {
            Some(n) => n == 0,
            None => false,
        };
        if done || slash >= v.len() {
            proof {
                assert(v@.subrange(p as int, v.len() as int) =~= v@.skip(p as int));
            }
            return string_of(&v, p, v.len());
        }
        left =
        match left {
            Some(n) => Some(n - 1),
            None => None,
        };
        p = next;
    }
}

/// What is to become of a file.
#[derive(Clone, Debug, PartialEq, Eq)]
pub struct Target {
    /// The file's name.
    pub name: String,
    /// The file is to be deleted.
    pub delete: bool,
    /// The file may be created if it does not exist.
    pub create: bool,
}

/// The mathematical content of a target.
pub ghost struct Aim {
    pub name: Seq<char>,
    pub delete: bool,
    pub create: bool,
}

impl View for Target {
    type V = Aim;

    open spec fn view(&self) -> Aim {
        Aim { name: self.name@, delete: self.delete, create: self.create }
    }
}

/// What becomes of which file, given the names from the two file headers
/// and the first hunk header. A file named in the settings stands for both
/// names and is taken as written. The side that the patch leads to is the
/// new one going forward and the old one in reverse. Where its name stands
/// for no file, or its range is empty, the file is to be deleted, under
/// the name of the other side. Otherwise the file is patched under the
/// name of the side led to, and may be created first where the side come
/// from stands for no file or has an empty range. Names from the headers
/// have their leading segments taken off as the settings say.
pub open spec fn aim(oldname: Seq<char>, newname: Seq<char>, span: Span, c: Config) -> Aim {
    let old = match c.file {
        Some(f) => f,
        None => oldname,
    };
    let new = match c.file {
        Some(f) => f,
        None => newname,
    };
    let old_empty = span.oldline + span.oldlen == 0;
    let new_empty = span.newline + span.newlen == 0;
    let to = if c.reverse {
        old
    } else {
        new
    };
    let from = if c.reverse {
        new
    } else {
        old
    };
    let to_empty = if c.reverse {
        old_empty
    } else {
        new_empty
    };
    let from_empty = if c.reverse {
        new_empty
    } else {
        old_empty
    };
    let delete = to == devnull() || to_empty;
    let picked = if delete {
        from
    } else {
        to
    };
    Aim {
        name: match c.file {
            Some(f) => f,
            None => strip_path(
                picked,
                match c.strip {
                    Some(n) => Some(n as nat),
                    None => None,
                },
            ),
        },
        delete,
        create: !delete && (from == devnull() || from_empty),
    }
}

/// Decides what becomes of which file.
pub fn resolve_target(oldname: &str, newname: &str, span: Span, toy: &PatchToy) -> (t: Target)
    ensures
        t@ == aim(oldname@, newname@, span, toy@),
{
    let old_empty = span.oldline == 0 && span.oldlen == 0;
    let new_empty = span.newline == 0 && span.newlen == 0;
    let old: &str = match &toy.file {
        Some(f) => f.as_str(),
        None => oldname,
    };
    let new: &str = match &toy.file {
        Some(f) => f.as_str(),
        None => newname,
    };
    let to = if toy.reverse {
        old
    } else {
        new
    };
    let from = if toy.reverse {
        new
    } else {
        old
    };
    let to_empty = if toy.reverse {
        old_empty
    } else {
        new_empty
    };
    let from_empty = if toy.reverse {
        new_empty
    } else {
        old_empty
    };
    let delete = str_equal(to, DEVNULL()) || to_empty;
    let picked = if delete {
        from
    } else {
        to
    };
    let name = match &toy.file {
        Some(f) => f.clone(),
        None => strip_name(picked, toy.strip),
    };
    let create = !delete && (str_equal(from, DEVNULL()) || from_empty);
    Target { name, delete, create }
}

} // verus!
