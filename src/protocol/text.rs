//! Taking the JSON text wrapper off the server's message of the day.

use vstd::prelude::*;

verus! {

/// `s` with every occurrence of `pat` taken out, found left to right without overlap.
pub open spec fn remove_all(s: Seq<u8>, pat: Seq<u8>) -> Seq<u8>
    decreases s.len(),
{
    if s.len() == 0 || pat.len() == 0 {
        s
    } else if pat.len() <= s.len() && s.subrange(0, pat.len() as int) == pat {
        remove_all(s.subrange(pat.len() as int, s.len() as int), pat)
    } else {
        seq![s[0]] + remove_all(s.drop_first(), pat)
    }
}

/// The bytes that open a plain JSON text component: `{"text":"`.
pub open spec fn text_open() -> Seq<u8> {
    seq![0x7bu8, 0x22, 0x74, 0x65, 0x78, 0x74, 0x22, 0x3a, 0x22]
}

/// The bytes that close it: `"}`.
pub open spec fn text_close() -> Seq<u8> {
    seq![0x22u8, 0x7d]
}

/// `s` without the openings and then without the closings of plain JSON text components.
/// On UTF-8 text this is the same as removing them char by char, as the patterns are ASCII.
pub open spec fn strip_text_spec(s: Seq<u8>) -> Seq<u8> {
    remove_all(remove_all(s, text_open()), text_close())
}

/// Whether `pat` occurs in `s` at position `i`.
fn occurs_at(s: &Vec<u8>, i: usize, pat: &Vec<u8>) -> (r: bool)
    requires
        i <= s.len(),
    ensures
        r == (i + pat.len() <= s.len() && s@.subrange(i as int, i + pat.len()) == pat@),
{
    if s.len() - i < pat.len() {
        return false;
    }
    let mut j: usize = 0;
    while j < pat.len()
        invariant
            i + pat.len() <= s.len(),
            j <= pat.len(),
            forall|k: int| 0 <= k < j ==> s@[i + k] == pat@[k],
        decreases pat.len() - j,
    {
        if s[i + j] != pat[j] {
            proof {
                assert(s@.subrange(i as int, i + pat.len())[j as int] != pat@[j as int]);
            }
            return false;
        }
        j = j + 1;
    }
    proof {
        assert(s@.subrange(i as int, i + pat.len()) =~= pat@);
    }
    true
}

/// `s` with every occurrence of `pat` taken out; see [`remove_all`].
pub fn remove_all_bytes(s: &Vec<u8>, pat: &Vec<u8>) -> (r: Vec<u8>)
    ensures
        r@ == remove_all(s@, pat@),
{
    let mut out: Vec<u8> = Vec::new();
    let mut i: usize = 0;
    proof {
        assert(s@.subrange(0, s.len() as int) =~= s@);
        assert(out@ + remove_all(s@, pat@) =~= remove_all(s@, pat@));
    }
    while i < s.len()
        invariant
            i <= s.len(),
            out@ + remove_all(s@.subrange(i as int, s.len() as int), pat@) == remove_all(s@, pat@),
        decreases s.len() - i,
    {
        let ghost t = s@.subrange(i as int, s.len() as int);
        let ghost before = out@;
        if pat.len() > 0 && occurs_at(s, i, pat) {
            proof {
                assert(t.subrange(0, pat.len() as int) =~= s@.subrange(i as int, i + pat.len()));
                assert(t.subrange(pat.len() as int, t.len() as int) =~= s@.subrange(
                    i + pat.len(),
                    s.len() as int,
                ));
            }
            i = i + pat.len();
        } else {
            proof {
                if pat.len() > 0 && pat.len() <= t.len() {
                    assert(t.subrange(0, pat.len() as int) =~= s@.subrange(i as int, i + pat.len()));
                }
                assert(t.drop_first() =~= s@.subrange(i + 1, s.len() as int));
                if pat.len() == 0 {
                    assert(remove_all(t, pat@) == t);
                    assert(remove_all(t.drop_first(), pat@) == t.drop_first());
                    assert(t =~= seq![t[0]] + t.drop_first());
                }
            }
            out.push(s[i]);
            proof {
                let rest = remove_all(s@.subrange(i + 1, s.len() as int), pat@);
                assert(before + (seq![s@[i as int]] + rest) =~= out@ + rest);
            }
            i = i + 1;
        }
    }
    proof {
        assert(s@.subrange(i as int, s.len() as int) =~= Seq::<u8>::empty());
        assert(out@ + Seq::<u8>::empty() =~= out@);
    }
    out
}

/// Takes the plain JSON text wrapper off a message; see [`strip_text_spec`].
pub fn strip_text(raw: &Vec<u8>) -> (r: Vec<u8>)
    ensures
        r@ == strip_text_spec(raw@),
{
    let open: Vec<u8> = vec![0x7b, 0x22, 0x74, 0x65, 0x78, 0x74, 0x22, 0x3a, 0x22];
    let close: Vec<u8> = vec![0x22, 0x7d];
    proof {
        assert(open@ =~= text_open());
        assert(close@ =~= text_close());
    }
    let once = remove_all_bytes(raw, &open);
    remove_all_bytes(&once, &close)
}

} // verus!
