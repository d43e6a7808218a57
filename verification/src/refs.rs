//! Issue references.
//!
//! A reference token is an optional `(`, a word, one or more blanks, `#`,
//! one or more digits, and an optional `)`. The text is scanned left to
//! right; at each position the token is read if it starts there, otherwise
//! the scan moves one character on, so tokens never overlap and appear in
//! order of discovery.

use vstd::prelude::*;

use crate::text::blanks_end;
use crate::text::digits_end;
use crate::text::is_digit;
use crate::text::lemma_blanks_end;
use crate::text::lemma_digits_end;
use crate::text::lemma_word_end;
use crate::text::scan_blanks;
use crate::text::scan_digits;
use crate::text::scan_word;
use crate::text::word_end;

verus! {

/// Where a reference token sits: its digit span and its end position.
pub struct RefSpan {
    pub ds: int,
    pub de: int,
    pub end: int,
}

/// Reads a reference token starting exactly at position `i`.
pub open spec fn ref_at(s: Seq<char>, i: int) -> Option<RefSpan> {
    if i < 0 || i >= s.len() {
        None
    } else {
        let p = if s[i] == '(' {
            i + 1
        } else {
            i
        };
        let w = word_end(s, p);
        if w == p {
            None
        } else {
            let b = blanks_end(s, w);
            if b == w {
                None
            } else if b < s.len() && s[b] == '#' {
                let d = digits_end(s, b + 1);
                if d == b + 1 {
                    None
                } else {
                    let e = if d < s.len() && s[d] == ')' {
                        d + 1
                    } else {
                        d
                    };
                    Some(RefSpan { ds: b + 1, de: d, end: e })
                }
            } else {
                None
            }
        }
    }
}

/// A token that starts at `i` covers at least one character and its digit
/// span lies inside the text.
pub proof fn lemma_ref_at(s: Seq<char>, i: int)
    ensures
        ref_at(s, i) matches Some(m) ==> {
            &&& i < m.end <= s.len()
            &&& 1 <= m.ds < m.de <= s.len()
            &&& m.de <= m.end
            &&& s[m.ds - 1] == '#'
            &&& forall|j: int| m.ds <= j < m.de ==> is_digit(s[j])
        },
{
    if 0 <= i < s.len() {
        let p = if s[i] == '(' {
            i + 1
        } else {
            i
        };
        lemma_word_end(s, p);
        let w = word_end(s, p);
        if w != p {
            lemma_blanks_end(s, w);
            let b = blanks_end(s, w);
            if b != w && b < s.len() && s[b] == '#' {
                lemma_digits_end(s, b + 1);
            }
        }
    }
}

/// A text without a `#` holds no reference token: none is found from any
/// position, and stripping changes nothing.
pub proof fn lemma_no_hash_no_refs(s: Seq<char>, i: int)
    requires
        0 <= i <= s.len(),
        forall|j: int| 0 <= j < s.len() ==> s[j] != '#',
    ensures
        numbers_from(s, i) == Seq::<u16>::empty(),
        strip_refs(s, i) == s.subrange(i, s.len() as int),
    decreases s.len() - i,
{
    if i < s.len() {
        match ref_at(s, i) {
            Some(m) => {
                lemma_ref_at(s, i);
                assert(s[m.ds - 1] == '#');
                assert(false);
            },
            None => {},
        }
        lemma_no_hash_no_refs(s, i + 1);
        assert(seq![s[i]] + s.subrange(i + 1, s.len() as int) =~= s.subrange(
            i,
            s.len() as int,
        ));
    } else {
        assert(strip_refs(s, i) =~= s.subrange(i, s.len() as int));
    }
}

/// The text with every reference token removed.
pub open spec fn strip_refs(s: Seq<char>, i: int) -> Seq<char>
    decreases s.len() - i,
        when 0 <= i
        via strip_refs_dec
{
    if i >= s.len() {
        Seq::empty()
    } else {
        match ref_at(s, i) {
            Some(m) => strip_refs(s, m.end),
            None => seq![s[i]] + strip_refs(s, i + 1),
        }
    }
}

#[via_fn]
proof fn strip_refs_dec(s: Seq<char>, i: int) {
    lemma_ref_at(s, i);
}

/// The digit of `c`, for digit characters.
pub open spec fn digit_of(c: char) -> nat {
    if is_digit(c) {
        (c as u32 - 48) as nat
    } else {
        0
    }
}

/// The decimal value of a digit string.
pub open spec fn digits_val(d: Seq<char>) -> nat
    decreases d.len(),
{
    if d.len() == 0 {
        0
    } else {
        digits_val(d.drop_last()) * 10 + digit_of(d.last())
    }
}

/// The reference numbers found from position `i` on, in discovery order.
/// A token whose value exceeds `u16::MAX` is consumed but yields no number.
pub open spec fn numbers_from(s: Seq<char>, i: int) -> Seq<u16>
    decreases s.len() - i,
        when 0 <= i
        via numbers_from_dec
{
    if i >= s.len() {
        Seq::empty()
    } else {
        match ref_at(s, i) {
            Some(m) => {
                let d = s.subrange(m.ds, m.de);
                if digits_val(d) <= 0xffff {
                    seq![digits_val(d) as u16] + numbers_from(s, m.end)
                } else {
                    numbers_from(s, m.end)
                }
            },
            None => numbers_from(s, i + 1),
        }
    }
}

#[via_fn]
proof fn numbers_from_dec(s: Seq<char>, i: int) {
    lemma_ref_at(s, i);
}

/// Reads a reference token starting exactly at position `i` of `v`.
fn find_ref_at(v: &Vec<char>, i: usize) -> (r: Option<(usize, usize, usize)>)
    requires
        i < v@.len(),
    ensures
        match r {
            Some(t) => {
                &&& ref_at(v@, i as int) == Some(
                    RefSpan { ds: t.0 as int, de: t.1 as int, end: t.2 as int },
                )
                &&& i < t.2 <= v@.len()
                &&& t.0 < t.1 <= v@.len()
            },
            None => ref_at(v@, i as int) is None,
        },
{
    proof {
        lemma_ref_at(v@, i as int);
    }
    let n = v.len();
    let p = if v[i] == '(' {
        i + 1
    } else {
        i
    };
    proof {
        assert(p <= n);
    }
    let w = scan_word(v, p);
    if w == p {
        return None;
    }
    let b = scan_blanks(v, w);
    if b == w {
        return None;
    }
    if b < v.len() && v[b] == '#' {
        let d = scan_digits(v, b + 1);
        if d == b + 1 {
            return None;
        }
        let e = if d < v.len() && v[d] == ')' {
            d + 1
        } else {
            d
        };
        Some((b + 1, d, e))
    } else {
        None
    }
}

/// Removes every reference token from the text.
pub fn strip_references(v: &Vec<char>) -> (r: Vec<char>)
    ensures
        r@ == strip_refs(v@, 0),
{
    let mut out: Vec<char> = Vec::new();
    let mut i: usize = 0;
    while i < v.len()
        invariant
            i <= v@.len(),
            out@ + strip_refs(v@, i as int) == strip_refs(v@, 0),
        decreases v@.len() - i,
    {
        match find_ref_at(v, i) {
            Some(t) => {
                proof {
                    assert(out@ + strip_refs(v@, t.2 as int) =~= out@ + strip_refs(
                        v@,
                        i as int,
                    ));
                }
                i = t.2;
            },
            None => {
                out.push(v[i]);
                proof {
                    assert(out@ + strip_refs(v@, i as int + 1) =~= out@.drop_last() + strip_refs(
                        v@,
                        i as int,
                    ));
                }
                i = i + 1;
            },
        }
    }
    proof {
        assert(out@ + strip_refs(v@, v@.len() as int) =~= out@);
    }
    out
}

/// The value of the digit span `v[ds..de]`, when it fits in a `u16`.
fn digits_to_u16(v: &Vec<char>, ds: usize, de: usize) -> (r: Option<u16>)
    requires
        ds <= de <= v@.len(),
        forall|j: int| ds <= j < de ==> is_digit(v@[j]),
    ensures
        match r {
            Some(n) => digits_val(v@.subrange(ds as int, de as int)) <= 0xffff && n
                == digits_val(v@.subrange(ds as int, de as int)),
            None => digits_val(v@.subrange(ds as int, de as int)) > 0xffff,
        },
{
    let mut val: u32 = 0;
    let mut ok: bool = true;
    let mut j = ds;
    proof {
        assert(v@.subrange(ds as int, ds as int) =~= Seq::<char>::empty());
    }
    while j < de
        invariant
            ds <= j <= de <= v@.len(),
            forall|k: int| ds <= k < de ==> is_digit(v@[k]),
            ok ==> val == digits_val(v@.subrange(ds as int, j as int)) && val <= 0xffff,
            !ok ==> digits_val(v@.subrange(ds as int, j as int)) > 0xffff,
        decreases de - j,
    {
        proof {
            assert(v@.subrange(ds as int, j as int + 1).drop_last() =~= v@.subrange(
                ds as int,
                j as int,
            ));
            assert(v@.subrange(ds as int, j as int + 1).last() == v@[j as int]);
        }
        if ok {
            assert(is_digit(v@[j as int]));
            let d = (v[j] as u32) - 48;
            assert(d == digit_of(v@[j as int]));
            val = val * 10 + d;
            assert(val == digits_val(v@.subrange(ds as int, j as int + 1)));
            if val > 0xffff {
                ok = false;
            }
        } else {
            proof {
                let prev = digits_val(v@.subrange(ds as int, j as int));
                assert(digits_val(v@.subrange(ds as int, j as int + 1)) == prev * 10 + digit_of(
                    v@[j as int],
                ));
            }
        }
        j = j + 1;
    }
    if ok {
        Some(val as u16)
    } else {
        None
    }
}

/// Collects the reference numbers of the text, in discovery order.
pub fn reference_numbers(v: &Vec<char>) -> (r: Vec<u16>)
    ensures
        r@ == numbers_from(v@, 0),
{
    let mut out: Vec<u16> = Vec::new();
    let mut i: usize = 0;
    while i < v.len()
        invariant
            i <= v@.len(),
            out@ + numbers_from(v@, i as int) == numbers_from(v@, 0),
        decreases v@.len() - i,
    {
        match find_ref_at(v, i) {
            Some(t) => {
                proof {
                    lemma_ref_at(v@, i as int);
                }
                match digits_to_u16(v, t.0, t.1) {
                    Some(n) => {
                        out.push(n);
                        proof {
                            assert(out@ + numbers_from(v@, t.2 as int) =~= out@.drop_last()
                                + numbers_from(v@, i as int));
                        }
                    },
                    None => {
                        proof {
                            assert(out@ + numbers_from(v@, t.2 as int) =~= out@ + numbers_from(
                                v@,
                                i as int,
                            ));
                        }
                    },
                }
                i = t.2;
            },
            None => {
                i = i + 1;
            },
        }
    }
    proof {
        assert(out@ + numbers_from(v@, v@.len() as int) =~= out@);
    }
    out
}

} // verus!
