use vstd::prelude::*;
use vstd::string::StringSliceAdditionalSpecFns;
use crate::source::{seeded_generator, RandomSource};

verus! {

/// A seed text that cannot seed the generator.
#[derive(Debug, Clone, Copy, PartialEq, Eq, Structural)]
pub enum ConfigError {
    /// Not four comma-separated unsigned 32-bit integers.
    MalformedSeed,
    /// Four zeros: the generator's state must not be all zero.
    ZeroSeed,
}

/// The text split at each `,`; a text without commas is one field.
pub open spec fn split_commas(b: Seq<u8>) -> Seq<Seq<u8>>
    decreases b.len(),
{
    if b.len() == 0 {
        seq![Seq::empty()]
    } else {
        let init = split_commas(b.drop_last());
        if b.last() == 44u8 {
            init.push(Seq::empty())
        } else {
            init.update(init.len() - 1, init.last().push(b.last()))
        }
    }
}

pub open spec fn is_digit(c: u8) -> bool {
    48u8 <= c <= 57u8
}

/// The value of a string of decimal digits.
pub open spec fn digits_value(d: Seq<u8>) -> nat
    decreases d.len(),
{
    if d.len() == 0 {
        0
    } else {
        digits_value(d.drop_last()) * 10 + (d.last() - 48u8) as nat
    }
}

/// The digits of a field, after an optional leading `+`.
pub open spec fn field_digits(f: Seq<u8>) -> Seq<u8> {
    if f.len() > 0 && f[0] == 43u8 {
        f.drop_first()
    } else {
        f
    }
}

/// A field read as an unsigned 32-bit integer: an optional `+`, then one or
/// more decimal digits whose value fits in 32 bits.
pub open spec fn field_value(f: Seq<u8>) -> Option<u32> {
    let d = field_digits(f);
    if d.len() > 0 && (forall|i: int| 0 <= i < d.len() ==> is_digit(#[trigger] d[i]))
        && digits_value(d) <= u32::MAX {
        Some(digits_value(d) as u32)
    } else {
        None
    }
}

/// The four words of a seed text, when it is exactly four fields that each read
/// as an unsigned 32-bit integer.
pub open spec fn seed_words(b: Seq<u8>) -> Option<Seq<u32>> {
    let fs = split_commas(b);
    if fs.len() == 4 && (forall|i: int| 0 <= i < 4 ==> (#[trigger] field_value(fs[i])) is Some) {
        Some(fs.map_values(|f: Seq<u8>| field_value(f).unwrap()))
    } else {
        None
    }
}

pub open spec fn all_zero(w: Seq<u32>) -> bool {
    forall|i: int| 0 <= i < w.len() ==> w[i] == 0
}

proof fn lemma_digits_value_prefix(d: Seq<u8>, j: int)
    requires
        0 <= j < d.len(),
    ensures
        digits_value(d.take(j + 1)) == digits_value(d.take(j)) * 10 + (d[j] - 48u8) as nat,
{
    assert(d.take(j + 1).drop_last() =~= d.take(j));
}

proof fn lemma_digits_value_grows(d: Seq<u8>, j: int)
    requires
        0 <= j <= d.len(),
        forall|i: int| 0 <= i < d.len() ==> is_digit(#[trigger] d[i]),
    ensures
        digits_value(d.take(j)) <= digits_value(d),
    decreases d.len() - j,
{
    if j < d.len() {
        lemma_digits_value_prefix(d, j);
        lemma_digits_value_grows(d, j + 1);
    } else {
        assert(d.take(j) =~= d);
    }
}

/// Reads the field `b[start..end]` as an unsigned 32-bit integer.
fn parse_field(b: &[u8], start: usize, end: usize) -> (r: Option<u32>)
    requires
        start <= end <= b@.len(),
    ensures
        r == field_value(b@.subrange(start as int, end as int)),
{
    let ghost f = b@.subrange(start as int, end as int);
    let mut i = start;
    if i < end && b[i] == 43u8 {
        i = i + 1;
    }
    let ghost d = field_digits(f);
    assert(d =~= b@.subrange(i as int, end as int));
    if i == end {
        return None;
    }
    let first = i;
    let mut acc: u64 = 0;
    while i < end
        invariant
            first <= i <= end <= b@.len(),
            d =~= b@.subrange(first as int, end as int),
            d == field_digits(f),
            f == b@.subrange(start as int, end as int),
            forall|k: int| 0 <= k < i - first ==> is_digit(#[trigger] d[k]),
            acc == digits_value(d.take(i - first)),
            acc <= u32::MAX,
        decreases end - i,
    {
        let c = b[i];
        if c < 48u8 || c > 57u8 {
            assert(!is_digit(d[i - first]));
            assert(!(forall|k: int| 0 <= k < d.len() ==> is_digit(#[trigger] d[k])));
            return None;
        }
        proof {
            lemma_digits_value_prefix(d, i - first);
        }
        acc = acc * 10 + (c - 48u8) as u64;
        i = i + 1;
        if acc > u32::MAX as u64 {
            proof {
                if forall|k: int| 0 <= k < d.len() ==> is_digit(#[trigger] d[k]) {
                    lemma_digits_value_grows(d, i - first);
                }
            }
            return None;
        }
    }
    assert(d.take(end - first) =~= d);
    Some(acc as u32)
}

/// Reads a seed text: four unsigned 32-bit integers separated by commas, such
/// as `"1,2,3,4"`. Any other number of fields, or a field that does not read as
/// such an integer, is `MalformedSeed`.
pub fn parse_seed(text: &str) -> (r: Result<[u32; 4], ConfigError>)
    ensures
        match r {
            Ok(w) => seed_words(text.spec_bytes()) == Some(w@),
            Err(e) => seed_words(text.spec_bytes()) is None && e == ConfigError::MalformedSeed,
        },
{
    let b = text.as_bytes();
    let mut words: Vec<u32> = Vec::new();
    let mut ok = true;
    let mut k: usize = 0;
    let mut start: usize = 0;
    let mut i: usize = 0;
    while i < b.len()
        invariant
            b@ == text.spec_bytes(),
            k <= start <= i <= b@.len(),
            split_commas(b@.take(i as int)).len() == k + 1,
            split_commas(b@.take(i as int))[k as int] == b@.subrange(start as int, i as int),
            ok ==> k <= 3 && words@.len() == k,
            ok ==> forall|j: int| 0 <= j < k ==>
                field_value(#[trigger] split_commas(b@.take(i as int))[j]) == Some(words@[j]),
            !ok ==> k > 3 || exists|j: int| 0 <= j < k &&
                (#[trigger] field_value(split_commas(b@.take(i as int))[j])) is None,
        decreases b@.len() - i,
    {
        let ghost before = split_commas(b@.take(i as int));
        let ghost after = split_commas(b@.take(i + 1));
        assert(b@.take(i + 1).drop_last() =~= b@.take(i as int));
        if b[i] == 44u8 {
            assert(after == before.push(Seq::empty()));
            if ok {
                if k < 3 {
                    match parse_field(b, start, i) {
                        Some(v) => {
                            words.push(v);
                        },
                        None => {
                            ok = false;
                            assert(field_value(after[k as int]) is None);
                        },
                    }
                } else {
                    ok = false;
                }
            } else {
                if k <= 3 {
                    let ghost j = choose|j: int| 0 <= j < k &&
                        (#[trigger] field_value(before[j])) is None;
                    assert(field_value(after[j]) is None);
                }
            }
            k = k + 1;
            start = i + 1;
            assert(b@.subrange(start as int, i + 1) =~= Seq::<u8>::empty());
        } else {
            assert(after == before.update(k as int, before[k as int].push(b[i as int])));
            assert(b@.subrange(start as int, i + 1) =~= b@.subrange(start as int, i as int).push(b[i as int]));
            if !ok && k <= 3 {
                let ghost j = choose|j: int| 0 <= j < k &&
                    (#[trigger] field_value(before[j])) is None;
                assert(field_value(after[j]) is None);
            }
        }
        i = i + 1;
    }
    let ghost fs = split_commas(b@.take(i as int));
    assert(b@.take(i as int) =~= b@);
    if ok && k == 3 {
        match parse_field(b, start, i) {
            Some(v) => {
                let w = [words[0], words[1], words[2], v];
                assert(fs.map_values(|f: Seq<u8>| field_value(f).unwrap()) =~= w@);
                Ok(w)
            },
            None => Err(ConfigError::MalformedSeed),
        }
    } else {
        Err(ConfigError::MalformedSeed)
    }
}

/// Resolves an optional seed text into the source of a rendering pass. With a
/// text, the source is seeded with its four words, and is the same in every
/// run; without one, it is seeded from entropy.
pub fn resolve_seed(text: Option<&str>) -> (r: Result<RandomSource, ConfigError>)
    ensures
        match text {
            None => r is Ok,
            Some(t) => match seed_words(t.spec_bytes()) {
                None => r matches Err(e) && e == ConfigError::MalformedSeed,
                Some(w) => if all_zero(w) {
                    r matches Err(e) && e == ConfigError::ZeroSeed
                } else {
                    r matches Ok(src) && src.state() == seeded_generator(w)
                },
            },
        },
{
    match text {
        None => Ok(RandomSource::from_entropy()),
        Some(t) => {
            let w = parse_seed(t)?;
            if w[0] == 0 && w[1] == 0 && w[2] == 0 && w[3] == 0 {
                assert(all_zero(w@));
                Err(ConfigError::ZeroSeed)
            } else {
                Ok(RandomSource::from_seed(w))
            }
        },
    }
}

} // verus!
