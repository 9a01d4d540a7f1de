//! Validation of ASCII DNS host names.

use vstd::prelude::*;
use vstd::string::StringSliceAdditionalSpecFns;

verus! {

/// An ASCII letter or digit (`u8::is_ascii_alphanumeric`).
pub open spec fn is_alnum(b: u8) -> bool {
    (0x30 <= b <= 0x39) || (0x41 <= b <= 0x5a) || (0x61 <= b <= 0x7a)
}

/// The byte `.`.
pub open spec fn dot() -> u8 {
    0x2e
}

/// The byte `-`.
pub open spec fn hyphen() -> u8 {
    0x2d
}

/// The pieces of `s` between dots, as `str::split('.')` yields them: the
/// empty input gives one empty piece, and each dot starts a new piece.
pub open spec fn split_dots(s: Seq<u8>) -> Seq<Seq<u8>>
    decreases s.len(),
{
    if s.len() == 0 {
        seq![Seq::<u8>::empty()]
    } else if s.last() == dot() {
        split_dots(s.drop_last()).push(Seq::<u8>::empty())
    } else {
        let p = split_dots(s.drop_last());
        p.update(p.len() - 1, p.last().push(s.last()))
    }
}

/// A host name label: 1 to 63 bytes, letters, digits and hyphens, starting and
/// ending with a letter or digit.
pub open spec fn label_ok(l: Seq<u8>) -> bool {
    &&& 0 < l.len() <= 63
    &&& is_alnum(l[0])
    &&& is_alnum(l.last())
    &&& forall|i: int| 0 <= i < l.len() ==> is_alnum(#[trigger] l[i]) || l[i] == hyphen()
}

/// `s` without one trailing dot, if it has one.
pub open spec fn strip_trailing_dot(s: Seq<u8>) -> Seq<u8> {
    if s.len() > 0 && s.last() == dot() {
        s.drop_last()
    } else {
        s
    }
}

/// The host names that the resolver accepts: after dropping one trailing dot,
/// 1 to 253 bytes, and every dot-separated label well formed.
pub open spec fn dns_name_ok(s: Seq<u8>) -> bool {
    let name = strip_trailing_dot(s);
    &&& 0 < name.len() <= 253
    &&& forall|k: int| 0 <= k < split_dots(name).len() ==> label_ok(#[trigger] split_dots(name)[k])
}

/// Whether a byte is an ASCII letter or digit.
fn is_alnum_byte(b: u8) -> (r: bool)
    ensures
        r == is_alnum(b),
{
    (0x30 <= b && b <= 0x39) || (0x41 <= b && b <= 0x5a) || (0x61 <= b && b <= 0x7a)
}

/// Whether `b[lo..hi]` is a well-formed label.
fn label_ok_in(b: &[u8], lo: usize, hi: usize) -> (r: bool)
    requires
        lo <= hi <= b@.len(),
    ensures
        r == label_ok(b@.subrange(lo as int, hi as int)),
{
    let ghost l = b@.subrange(lo as int, hi as int);
    if hi - lo == 0 || hi - lo > 63 {
        return false;
    }
    if !is_alnum_byte(b[lo]) || !is_alnum_byte(b[hi - 1]) {
        return false;
    }
    let mut i = lo;
    while i < hi
        invariant
            lo <= i <= hi <= b@.len(),
            l == b@.subrange(lo as int, hi as int),
            forall|j: int| 0 <= j < i - lo ==> is_alnum(#[trigger] l[j]) || l[j] == hyphen(),
        decreases hi - i,
    {
        if !(is_alnum_byte(b[i]) || b[i] == 0x2d) {
            assert(l[i - lo] == b@[i as int]);
            return false;
        }
        i = i + 1;
    }
    true
}

/// Every piece but the last of `split_dots(s)` is a well-formed label.
spec fn complete_labels_ok(s: Seq<u8>) -> bool {
    forall|k: int|
        0 <= k < split_dots(s).len() - 1 ==> label_ok(#[trigger] split_dots(s)[k])
}

/// Whether `s` is a valid ASCII host name, with an optional trailing dot.
pub fn is_valid_dns_name(s: &str) -> (r: bool)
    ensures
        r == dns_name_ok(s.spec_bytes()),
{
    let b = s.as_bytes();
    let mut n = b.len();
    if n > 0 && b[n - 1] == 0x2e {
        n = n - 1;
    }
    let ghost name = strip_trailing_dot(b@);
    assert(name =~= b@.take(n as int));
    if n == 0 || n > 253 {
        return false;
    }
    let mut ok = true;
    let mut start: usize = 0;
    let mut i: usize = 0;
    proof {
        assert(b@.take(0) =~= Seq::<u8>::empty());
    }
    while i < n
        invariant
            0 <= start <= i <= n <= b@.len(),
            name == b@.take(n as int),
            split_dots(b@.take(i as int)).len() >= 1,
            split_dots(b@.take(i as int)).last() == b@.subrange(start as int, i as int),
            ok == complete_labels_ok(b@.take(i as int)),
        decreases n - i,
    {
        let ghost prev = b@.take(i as int);
        let ghost next = b@.take(i + 1);
        assert(next.drop_last() =~= prev);
        assert(next.last() == b@[i as int]);
        if b[i] == 0x2e {
            let this_ok = label_ok_in(b, start, i);
            ok = ok && this_ok;
            proof {
                let ps = split_dots(prev);
                assert(split_dots(next) == ps.push(Seq::<u8>::empty()));
                assert forall|k: int|
                    0 <= k < split_dots(next).len() - 1 implies split_dots(next)[k] == ps[k] by {}
                if ok {
                    assert forall|k: int|
                        0 <= k < split_dots(next).len() - 1 implies label_ok(
                        #[trigger] split_dots(next)[k],
                    ) by {
                        if k < ps.len() - 1 {
                            assert(label_ok(ps[k]));
                        }
                    }
                } else if !this_ok {
                    assert(split_dots(next)[ps.len() - 1] == ps.last());
                } else {
                    let k = choose|k: int| 0 <= k < ps.len() - 1 && !label_ok(#[trigger] ps[k]);
                    assert(split_dots(next)[k] == ps[k]);
                }
            }
            start = i + 1;
            assert(b@.subrange(start as int, i + 1) =~= Seq::<u8>::empty());
        } else {
            proof {
                let ps = split_dots(prev);
                let ns = split_dots(next);
                assert(ns == ps.update(ps.len() - 1, ps.last().push(b@[i as int])));
                assert(ns.last() =~= b@.subrange(start as int, i + 1));
                if ok {
                    assert forall|k: int| 0 <= k < ns.len() - 1 implies label_ok(
                        #[trigger] ns[k],
                    ) by {
                        assert(ns[k] == ps[k]);
                    }
                } else {
                    let k = choose|k: int| 0 <= k < ps.len() - 1 && !label_ok(#[trigger] ps[k]);
                    assert(ns[k] == ps[k]);
                }
            }
        }
        i = i + 1;
    }
    let last_ok = label_ok_in(b, start, n);
    proof {
        let ps = split_dots(name);
        assert(b@.take(i as int) == name);
        if ok && last_ok {
            assert forall|k: int| 0 <= k < ps.len() implies label_ok(#[trigger] ps[k]) by {
                if k < ps.len() - 1 {
                    assert(label_ok(ps[k]));
                }
            }
        } else if !last_ok {
            assert(!label_ok(ps[ps.len() - 1]));
        } else {
            let k = choose|k: int| 0 <= k < ps.len() - 1 && !label_ok(#[trigger] ps[k]);
        }
    }
    ok && last_ok
}

/// A single trailing dot (the fully qualified form) does not change whether a
/// name is valid.
pub proof fn lemma_trailing_dot_irrelevant(s: Seq<u8>)
    requires
        s.len() == 0 || s.last() != dot(),
    ensures
        dns_name_ok(s.push(dot())) == dns_name_ok(s),
{
    assert(s.push(dot()).drop_last() =~= s);
}

/// `b` with an ASCII upper-case letter turned into lower case.
pub open spec fn ascii_lower_byte(b: u8) -> u8 {
    if 0x41 <= b <= 0x5a {
        (b + 32) as u8
    } else {
        b
    }
}

/// `s` with every ASCII upper-case letter turned into lower case.
pub open spec fn ascii_lower(s: Seq<u8>) -> Seq<u8> {
    s.map_values(|b: u8| ascii_lower_byte(b))
}

proof fn lemma_split_dots_lower(s: Seq<u8>)
    ensures
        split_dots(ascii_lower(s)) =~= split_dots(s).map_values(|l: Seq<u8>| ascii_lower(l)),
    decreases s.len(),
{
    let f = |l: Seq<u8>| ascii_lower(l);
    if s.len() == 0 {
        assert(ascii_lower(s) =~= Seq::<u8>::empty());
        assert(ascii_lower(Seq::<u8>::empty()) =~= Seq::<u8>::empty());
    } else {
        let ls = ascii_lower(s);
        lemma_split_dots_lower(s.drop_last());
        assert(ls.drop_last() =~= ascii_lower(s.drop_last()));
        assert(ls.last() == ascii_lower_byte(s.last()));
        let p = split_dots(s.drop_last());
        let lp = split_dots(ls.drop_last());
        if s.last() == dot() {
            assert(ls.last() == dot());
            assert(ascii_lower(Seq::<u8>::empty()) =~= Seq::<u8>::empty());
            assert(split_dots(ls) =~= lp.push(Seq::<u8>::empty()));
            assert(split_dots(s).map_values(f) =~= p.map_values(f).push(f(Seq::<u8>::empty())));
        } else {
            assert(ls.last() != dot());
            lemma_split_dots_len(s.drop_last());
            assert(lp.len() == p.len());
            assert(lp.last() == ascii_lower(p.last()));
            assert(ascii_lower(p.last().push(s.last())) =~= ascii_lower(p.last()).push(
                ls.last(),
            ));
            assert(split_dots(s).map_values(f) =~= p.map_values(f).update(
                p.len() - 1,
                f(p.last().push(s.last())),
            ));
        }
    }
}

proof fn lemma_split_dots_len(s: Seq<u8>)
    ensures
        split_dots(s).len() >= 1,
    decreases s.len(),
{
    if s.len() > 0 {
        lemma_split_dots_len(s.drop_last());
    }
}

proof fn lemma_label_ok_lower(l: Seq<u8>)
    ensures
        label_ok(ascii_lower(l)) == label_ok(l),
{
    let m = ascii_lower(l);
    assert forall|i: int| 0 <= i < l.len() implies (is_alnum(#[trigger] m[i]) == is_alnum(l[i])
        && (m[i] == hyphen()) == (l[i] == hyphen())) by {}
    if l.len() > 0 {
        assert(m.last() == ascii_lower_byte(l.last()));
    }
    if label_ok(l) {
        assert forall|i: int| 0 <= i < m.len() implies is_alnum(#[trigger] m[i]) || m[i]
            == hyphen() by {
            assert(is_alnum(l[i]) || l[i] == hyphen());
        }
    }
    if label_ok(m) {
        assert forall|i: int| 0 <= i < l.len() implies is_alnum(#[trigger] l[i]) || l[i]
            == hyphen() by {
            assert(is_alnum(m[i]) || m[i] == hyphen());
        }
    }
}

/// Host name validity does not depend on ASCII letter case: a name is valid
/// exactly when its lower-case form is.
pub proof fn lemma_dns_name_case_insensitive(s: Seq<u8>)
    ensures
        dns_name_ok(ascii_lower(s)) == dns_name_ok(s),
{
    let name = strip_trailing_dot(s);
    let lname = strip_trailing_dot(ascii_lower(s));
    assert(lname =~= ascii_lower(name));
    lemma_split_dots_lower(name);
    let ps = split_dots(name);
    let ls = split_dots(lname);
    assert forall|k: int| 0 <= k < ps.len() implies label_ok(#[trigger] ls[k]) == label_ok(
        ps[k],
    ) by {
        lemma_label_ok_lower(ps[k]);
    }
    if dns_name_ok(s) {
        assert forall|k: int| 0 <= k < ls.len() implies label_ok(#[trigger] ls[k]) by {
            assert(label_ok(ps[k]));
        }
    }
    if dns_name_ok(ascii_lower(s)) {
        assert forall|k: int| 0 <= k < ps.len() implies label_ok(#[trigger] ps[k]) by {
            assert(label_ok(ls[k]));
        }
    }
}

/// A one-byte name is valid exactly when the byte is an ASCII digit or an
/// upper- or lower-case ASCII letter.
pub proof fn lemma_dns_single_byte_name(b: u8)
    ensures
        dns_name_ok(seq![b]) <==> ((0x30 <= b <= 0x39) || (0x41 <= b <= 0x5a) || (0x61 <= b
            <= 0x7a)),
{
    let s = seq![b];
    if b == dot() {
        assert(strip_trailing_dot(s) =~= Seq::<u8>::empty());
    } else {
        assert(s.drop_last() =~= Seq::<u8>::empty());
        let p = split_dots(s.drop_last());
        assert(p == seq![Seq::<u8>::empty()]);
        assert(Seq::<u8>::empty().push(b) =~= s);
        assert(split_dots(s) == p.update(0, p.last().push(b)));
        assert(split_dots(s) =~= seq![s]);
        if dns_name_ok(s) {
            assert(label_ok(split_dots(s)[0]));
        }
    }
}

proof fn lemma_split_dots_no_dot(s: Seq<u8>)
    requires
        forall|i: int| 0 <= i < s.len() ==> s[i] != 0x2e,
    ensures
        split_dots(s) =~= seq![s],
    decreases s.len(),
{
    if s.len() > 0 {
        lemma_split_dots_no_dot(s.drop_last());
        assert(s.last() == s[s.len() - 1]);
        let p = split_dots(s.drop_last());
        assert(p.len() == 1 && p.last() == s.drop_last());
        assert(s.drop_last().push(s.last()) =~= s);
        assert(split_dots(s) == p.update(0, p.last().push(s.last())));
    } else {
        assert(s =~= Seq::<u8>::empty());
    }
}

/// A name without dots is valid exactly when it is a single well-formed
/// label: 1 to 63 bytes, each an ASCII letter, digit or hyphen, the first and
/// the last a letter or digit.
pub proof fn lemma_dotless_name(s: Seq<u8>)
    requires
        forall|i: int| 0 <= i < s.len() ==> s[i] != 0x2e,
    ensures
        dns_name_ok(s) <==> {
            &&& 1 <= s.len() <= 63
            &&& forall|i: int|
                0 <= i < s.len() ==> {
                    let b = #[trigger] s[i];
                    (0x30 <= b <= 0x39) || (0x41 <= b <= 0x5a) || (0x61 <= b <= 0x7a) || b
                        == 0x2d
                }
            &&& s.len() >= 1 ==> ((0x30 <= s[0] <= 0x39) || (0x41 <= s[0] <= 0x5a) || (0x61
                <= s[0] <= 0x7a))
            &&& s.len() >= 1 ==> ((0x30 <= s.last() <= 0x39) || (0x41 <= s.last() <= 0x5a) || (
            0x61 <= s.last() <= 0x7a))
        },
{
    if s.len() > 0 {
        assert(s.last() == s[s.len() - 1]);
    }
    assert(strip_trailing_dot(s) == s);
    lemma_split_dots_no_dot(s);
    if dns_name_ok(s) {
        assert(label_ok(split_dots(s)[0]));
    }
}

/// A valid name is at most 253 bytes, or 254 with its trailing dot.
pub proof fn lemma_dns_name_length(s: Seq<u8>)
    requires
        dns_name_ok(s),
    ensures
        1 <= s.len() <= 253 || (s.len() == 254 && s.last() == 0x2e),
{
}

} // verus!
