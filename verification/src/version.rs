use vstd::prelude::*;
use vstd::string::StrSliceExecFns;

verus! {

/// A parsed version: dotted numeric components, `2.3.1` is `[2, 3, 1]`.
///
/// Values are built only by `parse`, which accepts exactly the strings made of
/// one or more dot-separated runs of digits, each run at most
/// `MAX_COMPONENT_DIGITS` long.  Malformed input yields absence, never an
/// error: a failed version parse must not abort link processing.
#[derive(Debug)]
pub struct Version {
    parts: Vec<u64>,
}

impl View for Version {
    type V = Seq<u64>;

    closed spec fn view(&self) -> Seq<u64> {
        self.parts@
    }
}

/// Longest component the grammar accepts, in digits.  Nineteen digits always
/// fit in a `u64`.
pub const MAX_COMPONENT_DIGITS: usize = 19;

pub open spec fn is_digit(c: char) -> bool {
    '0' <= c && c <= '9'
}

pub open spec fn digit_val(c: char) -> nat {
    ((c as u32) - 48) as nat
}

pub open spec fn all_digits(s: Seq<char>) -> bool {
    forall|i: int| 0 <= i < s.len() ==> is_digit(#[trigger] s[i])
}

/// Numeric value of a digit run, most significant digit first.
pub open spec fn digits_val(s: Seq<char>) -> nat
    decreases s.len(),
{
    if s.len() == 0 {
        0
    } else {
        digits_val(s.drop_last()) * 10 + digit_val(s.last())
    }
}

/// The components of `s` split on `'.'`: always one more component than there
/// are dots, so the empty string has one empty component, and a trailing dot
/// ends with one.
pub open spec fn split_dots(s: Seq<char>) -> Seq<Seq<char>>
    decreases s.len(),
{
    if s.len() == 0 {
        seq![Seq::<char>::empty()]
    } else if s.last() == '.' {
        split_dots(s.drop_last()).push(Seq::<char>::empty())
    } else {
        let rest = split_dots(s.drop_last());
        rest.update(rest.len() - 1, rest.last().push(s.last()))
    }
}

pub open spec fn valid_component(p: Seq<char>) -> bool {
    1 <= p.len() <= MAX_COMPONENT_DIGITS && all_digits(p)
}

/// The strings the version grammar accepts.
pub open spec fn valid_version_chars(s: Seq<char>) -> bool {
    forall|k: int| 0 <= k < split_dots(s).len() ==> valid_component(#[trigger] split_dots(s)[k])
}

/// The numeric components of an accepted string.
pub open spec fn version_of(s: Seq<char>) -> Seq<u64> {
    split_dots(s).map_values(|p: Seq<char>| digits_val(p) as u64)
}

/// What `Version::parse` returns, as a function of the characters alone.
pub open spec fn parse_spec(s: Seq<char>) -> Option<Seq<u64>> {
    if valid_version_chars(s) {
        Some(version_of(s))
    } else {
        None
    }
}

/// `a` is an initial segment of `b`.
pub open spec fn seq_prefix_of(a: Seq<char>, b: Seq<char>) -> bool {
    a.len() <= b.len() && forall|m: int| 0 <= m < a.len() ==> a[m] == #[trigger] b[m]
}

pub open spec fn pow10(n: nat) -> nat
    decreases n,
{
    if n == 0 {
        1
    } else {
        10 * pow10((n - 1) as nat)
    }
}

proof fn lemma_pow10_mono(a: nat, b: nat)
    requires
        a <= b,
    ensures
        pow10(a) <= pow10(b),
    decreases b,
{
    if a < b {
        lemma_pow10_mono(a, (b - 1) as nat);
    }
}

proof fn lemma_digits_val_bound(p: Seq<char>)
    requires
        all_digits(p),
    ensures
        digits_val(p) < pow10(p.len()),
    decreases p.len(),
{
    if p.len() > 0 {
        assert(all_digits(p.drop_last()));
        lemma_digits_val_bound(p.drop_last());
        assert(digit_val(p.last()) <= 9);
    }
}

proof fn lemma_split_dots_len(s: Seq<char>)
    ensures
        split_dots(s).len() >= 1,
    decreases s.len(),
{
    if s.len() > 0 {
        lemma_split_dots_len(s.drop_last());
    }
}

/// Extending a string only extends or appends to its final component: every
/// earlier component is settled, and the prefix's final component is an
/// initial segment of the component it lands in.
proof fn lemma_split_prefix(s: Seq<char>, i: int)
    requires
        0 <= i <= s.len(),
    ensures
        split_dots(s.take(i)).len() <= split_dots(s).len(),
        forall|j: int|
            0 <= j < split_dots(s.take(i)).len() - 1 ==> #[trigger] split_dots(s)[j] == split_dots(
                s.take(i),
            )[j],
        seq_prefix_of(
            split_dots(s.take(i)).last(),
            split_dots(s)[split_dots(s.take(i)).len() - 1],
        ),
    decreases s.len() - i,
{
    lemma_split_dots_len(s.take(i));
    if i == s.len() {
        assert(s.take(i) =~= s);
    } else {
        lemma_split_prefix(s, i + 1);
        let t = s.take(i);
        let t1 = s.take(i + 1);
        assert(t1 =~= t.push(s[i]));
        assert(t1.drop_last() =~= t);
        assert(t1.last() == s[i]);
        let a = split_dots(t);
        let a1 = split_dots(t1);
        lemma_split_dots_len(t);
        if s[i] == '.' {
            assert(a1 =~= a.push(Seq::<char>::empty()));
        } else {
            assert(a1 =~= a.update(a.len() - 1, a.last().push(s[i])));
        }
    }
}

/// Appending a digit multiplies the run's value by ten and adds the digit.
proof fn lemma_digits_val_push(p: Seq<char>, c: char)
    ensures
        digits_val(p.push(c)) == digits_val(p) * 10 + digit_val(c),
{
    assert(p.push(c).drop_last() =~= p);
    assert(p.push(c).last() == c);
}

impl Version {
    /// The numeric components, most significant first.
    pub fn parts(&self) -> (r: &Vec<u64>)
        ensures
            r@ == self@,
    {
        &self.parts
    }

    /// Parses a version-like string: one or more dot-separated digit runs.
    /// Malformed input — an empty string, an empty component, a stray
    /// character, an over-long component — yields `None`, never an error.
    pub fn parse(raw: &str) -> (r: Option<Version>)
        ensures
            r is Some <==> valid_version_chars(raw@),
            r is Some ==> r->0@ == version_of(raw@),
    {
        let ghost s: Seq<char> = raw@;
        let n: usize = raw.unicode_len();
        let mut parts: Vec<u64> = Vec::new();
        let mut cur: u64 = 0;
        let mut cur_len: usize = 0;
        let mut i: usize = 0;
        while i < n
            invariant
                n == s.len(),
                raw@ == s,
                i <= n,
                ({
                    let sp = split_dots(s.take(i as int));
                    &&& sp.len() == parts@.len() + 1
                    &&& (forall|j: int|
                        0 <= j < parts@.len() ==> valid_component(#[trigger] sp[j]))
                    &&& (forall|j: int|
                        0 <= j < parts@.len() ==> parts@[j] == digits_val(#[trigger] sp[j]))
                    &&& all_digits(sp.last())
                    &&& sp.last().len() == cur_len
                    &&& cur_len <= MAX_COMPONENT_DIGITS
                    &&& cur == digits_val(sp.last())
                }),
            decreases n - i,
        {
            let ghost t = s.take(i as int);
            let ghost sp = split_dots(t);
            let ghost t1 = s.take(i + 1);
            proof {
                lemma_split_dots_len(t);
                assert(t1 =~= t.push(s[i as int]));
                assert(t1.drop_last() =~= t);
                assert(t1.last() == s[i as int]);
            }
            let c = raw.get_char(i);
            let u = c as u32;
            if u == 46 {
                // '.' ends the current component, which must not be empty
                proof {
                    assert(c == '.');
                    assert(split_dots(t1) =~= sp.push(Seq::<char>::empty()));
                }
                if cur_len == 0 {
                    proof {
                        lemma_split_prefix(s, i + 1);
                        let k = sp.len() - 1;
                        assert(split_dots(s)[k] == split_dots(t1)[k]);
                        assert(split_dots(t1)[k] == sp.last());
                        assert(!valid_component(split_dots(s)[k]));
                        assert(!valid_version_chars(s));
                    }
                    return None;
                }
                parts.push(cur);
                cur = 0;
                cur_len = 0;
            } else if 48 <= u && u <= 57 {
                proof {
                    assert(c != '.');
                    assert(is_digit(c));
                    assert(split_dots(t1) =~= sp.update(sp.len() - 1, sp.last().push(c)));
                    lemma_digits_val_push(sp.last(), c);
                }
                if cur_len == MAX_COMPONENT_DIGITS {
                    proof {
                        lemma_split_prefix(s, i + 1);
                        let k = sp.len() - 1;
                        assert(split_dots(t1).last() == sp.last().push(c));
                        assert(split_dots(t1).last().len() == MAX_COMPONENT_DIGITS + 1);
                        assert(seq_prefix_of(split_dots(t1).last(), split_dots(s)[k]));
                        assert(split_dots(s)[k].len() > MAX_COMPONENT_DIGITS);
                        assert(!valid_component(split_dots(s)[k]));
                        assert(!valid_version_chars(s));
                    }
                    return None;
                }
                proof {
                    lemma_digits_val_bound(sp.last());
                    lemma_pow10_mono(sp.last().len(), 18);
                    assert(pow10(18) == 1000000000000000000) by {
                        reveal_with_fuel(pow10, 20);
                    }
                    assert(cur < 1000000000000000000);
                }
                let d: u64 = (u - 48) as u64;
                cur = cur * 10 + d;
                cur_len = cur_len + 1;
                proof {
                    let sp1 = split_dots(t1);
                    assert(sp1.last() == sp.last().push(c));
                    assert(all_digits(sp1.last())) by {
                        assert(forall|m: int|
                            0 <= m < sp.last().len() ==> #[trigger] sp1.last()[m] == sp.last()[m]);
                        assert(sp1.last()[sp.last().len() as int] == c);
                    }
                }
            } else {
                // a character that is neither a digit nor a dot settles failure
                proof {
                    assert(c != '.');
                    assert(!is_digit(c));
                    assert(split_dots(t1) =~= sp.update(sp.len() - 1, sp.last().push(c)));
                    lemma_split_prefix(s, i + 1);
                    let k = sp.len() - 1;
                    assert(split_dots(t1).last() == sp.last().push(c));
                    assert(seq_prefix_of(split_dots(t1).last(), split_dots(s)[k]));
                    assert(split_dots(s)[k][cur_len as int] == c);
                    assert(!valid_component(split_dots(s)[k]));
                    assert(!valid_version_chars(s));
                }
                return None;
            }
            i = i + 1;
        }
        proof {
            assert(s.take(n as int) =~= s);
        }
        let ghost sp = split_dots(s);
        if cur_len == 0 {
            // the final component is empty: an empty string or a trailing dot
            proof {
                assert(sp.last().len() == 0);
                assert(!valid_component(sp[sp.len() - 1]));
                assert(!valid_version_chars(s));
            }
            return None;
        }
        parts.push(cur);
        proof {
            assert(forall|k: int| 0 <= k < sp.len() ==> valid_component(#[trigger] sp[k])) by {
                assert(sp[sp.len() - 1] == sp.last());
            }
            assert(valid_version_chars(s));
            assert(parts@ =~= version_of(s));
        }
        Some(Version { parts })
    }
}

/// Strict lexicographic order on numeric components; a proper prefix precedes
/// any extension.
pub open spec fn lex_lt(a: Seq<u64>, b: Seq<u64>) -> bool
    decreases a.len(),
{
    if b.len() == 0 {
        false
    } else if a.len() == 0 {
        true
    } else if a[0] != b[0] {
        a[0] < b[0]
    } else {
        lex_lt(a.drop_first(), b.drop_first())
    }
}

impl Version {
    /// Compares two versions in lexicographic component order.
    pub fn lt(&self, other: &Version) -> (r: bool)
        ensures
            r == lex_lt(self@, other@),
    {
        let a = &self.parts;
        let b = &other.parts;
        let mut i: usize = 0;
        proof {
            assert(a@.skip(0) =~= a@);
            assert(b@.skip(0) =~= b@);
        }
        while i < a.len() && i < b.len()
            invariant
                i <= a@.len(),
                i <= b@.len(),
                a@ == self@,
                b@ == other@,
                lex_lt(self@, other@) == lex_lt(a@.skip(i as int), b@.skip(i as int)),
            decreases a@.len() - i,
        {
            if a[i] < b[i] {
                return true;
            } else if b[i] < a[i] {
                return false;
            }
            proof {
                assert(a@.skip(i as int).drop_first() =~= a@.skip(i + 1));
                assert(b@.skip(i as int).drop_first() =~= b@.skip(i + 1));
            }
            i = i + 1;
        }
        i < b.len()
    }
}

} // verus!
