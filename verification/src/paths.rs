//! Normalization of the absolute container paths that the file-transfer
//! endpoints accept: `.` segments and repeated or trailing slashes are
//! dropped, and `..` segments are rejected outright, so a request can never
//! escape the directory it names.

use vstd::prelude::*;

verus! {

use vstd::string::StrSliceExecFns;
use vstd::string::StringExecFns;
use crate::text::chars_of;

broadcast use vstd::string::group_string_axioms;

/// Index of the first `/` in `s`, or `s.len()` when there is none.
pub open spec fn first_slash(s: Seq<char>) -> nat
    decreases s.len(),
{
    if s.len() == 0 {
        0
    } else if s[0] == '/' {
        0
    } else {
        1 + first_slash(s.skip(1))
    }
}

proof fn lemma_first_slash_le(s: Seq<char>)
    ensures
        first_slash(s) <= s.len(),
    decreases s.len(),
{
    if s.len() > 0 && s[0] != '/' {
        lemma_first_slash_le(s.skip(1));
    }
}

proof fn lemma_first_slash_is(s: Seq<char>, j: int)
    requires
        0 <= j <= s.len(),
        forall|i: int| 0 <= i < j ==> s[i] != '/',
        j < s.len() ==> s[j] == '/',
    ensures
        first_slash(s) == if j < s.len() {
            j
        } else {
            s.len() as int
        },
    decreases j,
{
    if j > 0 && s.len() > 0 {
        assert(s[0] != '/');
        assert(forall|i: int| 0 <= i < j - 1 ==> #[trigger] s.skip(1)[i] == s[i + 1]);
        lemma_first_slash_is(s.skip(1), j - 1);
    }
}

/// A segment that survives normalization: non-empty and not `.`.
pub open spec fn seg_kept(seg: Seq<char>) -> bool {
    seg.len() > 0 && seg != seq!['.']
}

/// The normalized form of everything after the leading `/`: each kept
/// segment preceded by one `/`, or `None` as soon as a `..` segment
/// appears.
pub open spec fn norm_tail(s: Seq<char>) -> Option<Seq<char>>
    decreases s.len(),
    via norm_tail_decreases
{
    let k = first_slash(s) as int;
    let seg = s.take(k);
    if seg == seq!['.', '.'] {
        None
    } else if k == s.len() {
        if seg_kept(seg) {
            Some(seq!['/'] + seg)
        } else {
            Some(Seq::empty())
        }
    } else {
        match norm_tail(s.skip(k + 1)) {
            None => None,
            Some(rest) => if seg_kept(seg) {
                Some(seq!['/'] + seg + rest)
            } else {
                Some(rest)
            },
        }
    }
}

#[via_fn]
proof fn norm_tail_decreases(s: Seq<char>) {
    lemma_first_slash_le(s);
}

/// What `clean_path` answers: `None` for a relative path or one with a `..`
/// segment, otherwise the path's normalized form.
pub open spec fn clean_path_spec(s: Seq<char>) -> Option<Seq<char>> {
    if s.len() == 0 || s[0] != '/' {
        None
    } else {
        match norm_tail(s.skip(1)) {
            None => None,
            Some(t) => Some(
                if t.len() == 0 {
                    seq!['/']
                } else {
                    t
                },
            ),
        }
    }
}

/// Normalizes an absolute path: drops `.` segments and repeated or trailing
/// slashes, refuses a relative path and any `..` segment.
pub fn clean_path(raw: &str) -> (r: Result<String, &'static str>)
    ensures
        r is Ok <==> clean_path_spec(raw@) is Some,
        r matches Ok(out) ==> Some(out@) == clean_path_spec(raw@),
        raw@.len() == 0 || raw@[0] != '/' ==> (r matches Err(m) && m@ == "path must be absolute"@),
        r is Err && raw@.len() > 0 && raw@[0] == '/' ==> (r matches Err(m) && m@
            == "path traversal not allowed"@),
{
    let cs = chars_of(raw);
    let len = cs.len();
    if len == 0 || cs[0] != '/' {
        return Err("path must be absolute");
    }
    let mut out = String::new();
    let mut empty: bool = true;
    let mut pos: usize = 1;
    loop
        invariant_except_break
            clean_path_spec(raw@) == match norm_tail(cs@.skip(pos as int)) {
                None => None::<Seq<char>>,
                Some(rest) => Some(
                    if out@.len() + rest.len() == 0 {
                        seq!['/']
                    } else {
                        out@ + rest
                    },
                ),
            },
        invariant
            1 <= pos <= len == cs@.len(),
            cs@ == raw@,
            cs@[0] == '/',
            empty <==> out@.len() == 0,
        ensures
            clean_path_spec(raw@) == Some(
                if out@.len() == 0 {
                    seq!['/']
                } else {
                    out@
                },
            ),
            empty <==> out@.len() == 0,
        decreases len - pos,
    {
        let ghost tail = cs@.skip(pos as int);
        let ghost out0 = out@;
        let mut k: usize = pos;
        while k < len && cs[k] != '/'
            invariant
                pos <= k <= len == cs@.len(),
                forall|j: int| pos <= j < k ==> cs@[j] != '/',
            decreases len - k,
        {
            k = k + 1;
        }
        proof {
            assert(forall|i: int| 0 <= i < tail.len() ==> #[trigger] tail[i] == cs@[pos + i]);
            lemma_first_slash_is(tail, k - pos);
            assert(tail.take(k - pos) =~= cs@.subrange(pos as int, k as int));
        }
        let ghost seg = tail.take(k - pos);
        let seglen = k - pos;
        if seglen == 2 && cs[pos] == '.' && cs[pos + 1] == '.' {
            proof {
                assert(seg =~= seq!['.', '.']);
            }
            return Err("path traversal not allowed");
        }
        proof {
            assert(seg.len() == 2 ==> (seg[0] == cs@[pos as int] && seg[1] == cs@[pos + 1]));
            assert(seg != seq!['.', '.']);
            if seglen == 1 && cs@[pos as int] == '.' {
                assert(seg =~= seq!['.']);
            } else if seglen > 0 {
                assert(seg != seq!['.']) by {
                    if seglen == 1 {
                        assert(seg[0] == cs@[pos as int]);
                    }
                }
            }
        }
        let kept = seglen >= 1 && !(seglen == 1 && cs[pos] == '.');
        proof {
            assert(kept == seg_kept(seg));
        }
        if kept {
            proof {
                reveal_strlit("/");
                assert("/"@ =~= seq!['/']);
            }
            out.append("/");
            out.append(raw.substring_char(pos, k));
            empty = false;
            proof {
                assert(out@ =~= out0 + (seq!['/'] + seg));
            }
        }
        if k == len {
            proof {
                assert(first_slash(tail) == tail.len());
                assert(seg =~= tail);
                if seg_kept(seg) {
                    assert(norm_tail(tail) == Some(seq!['/'] + seg));
                    assert(out0 + (seq!['/'] + seg) =~= out@);
                } else {
                    assert(norm_tail(tail) == Some(Seq::<char>::empty()));
                    assert(out0 + Seq::<char>::empty() =~= out@);
                }
            }
            break ;
        }
        proof {
            assert(first_slash(tail) == k - pos < tail.len());
            assert(tail.skip(k - pos + 1) =~= cs@.skip(k + 1));
            if norm_tail(cs@.skip(k + 1)) is Some {
                let rest = norm_tail(cs@.skip(k + 1))->0;
                if seg_kept(seg) {
                    assert(out0 + (seq!['/'] + seg + rest) =~= out@ + rest);
                } else {
                    assert(out0 + rest =~= out@ + rest);
                }
            }
        }
        pos = k + 1;
    }
    if empty {
        proof {
            reveal_strlit("/");
            assert("/"@ =~= seq!['/']);
        }
        Ok(String::from_str("/"))
    } else {
        Ok(out)
    }
}

/// `target` lies at or under `base`, segment-wise: the two are equal, or
/// `base` is the root, or `base` followed by a `/` is a prefix of
/// `target`. A mere string prefix (`/homework` under `/home`) does not
/// count.
pub open spec fn within_spec(target: Seq<char>, base: Seq<char>) -> bool {
    ||| base == seq!['/'] && target.len() > 0 && target[0] == '/'
    ||| target == base
    ||| (target.len() > base.len() && target.take(base.len() as int) == base && target[base.len() as int]
        == '/')
}

/// Decides whether a normalized absolute path lies at or under a
/// normalized base directory, by whole segments.
pub fn path_within(target: &str, base: &str) -> (r: bool)
    ensures
        r == within_spec(target@, base@),
{
    let ts = chars_of(target);
    let bs = chars_of(base);
    if bs.len() == 1 && bs[0] == '/' {
        proof {
            assert(bs@ =~= seq!['/']);
        }
        return ts.len() > 0 && ts[0] == '/';
    }
    proof {
        assert(bs@ != seq!['/']) by {
            if bs@.len() == 1 {
                assert(bs@[0] == base@[0]);
            }
        }
    }
    if ts.len() < bs.len() {
        return false;
    }
    let mut i: usize = 0;
    while i < bs.len()
        invariant
            i <= bs@.len() <= ts@.len(),
            ts@ == target@,
            bs@ == base@,
            forall|j: int| 0 <= j < i ==> ts@[j] == bs@[j],
        decreases bs@.len() - i,
    {
        if ts[i] != bs[i] {
            proof {
                assert(target@.take(base@.len() as int)[i as int] != base@[i as int]);
            }
            return false;
        }
        i = i + 1;
    }
    proof {
        assert(ts@.take(bs@.len() as int) =~= bs@);
    }
    if ts.len() == bs.len() {
        proof {
            assert(ts@ =~= bs@);
        }
        true
    } else {
        ts[bs.len()] == '/'
    }
}

} // verus!
