//! Reading what the downloader prints about a video before fetching it: its
//! id and its duration in seconds, separated by a space.
use vstd::prelude::*;

verus! {

/// Calls `String::push`. Claimed, as std documents it: the character is
/// appended at the end.
#[verifier::external_body]
pub(crate) fn string_push(s: &mut String, c: char)
    ensures
        final(s)@ == old(s)@.push(c),
{
    s.push(c)
}

/// The characters of `text`, in order.
pub fn chars_of(text: &str) -> (r: Vec<char>)
    ensures
        r@ == text@,
{
    broadcast use vstd::string::group_string_axioms;

    let mut out: Vec<char> = Vec::new();
    for c in it: text.chars()
        invariant
            out@ == it.history(),
    {
        out.push(c);
    }
    assert(out@ =~= text@);
    out
}

/// The pieces of `s` between its spaces, in order, as `str::split(' ')` gives
/// them: one piece more than there are spaces.
pub open spec fn split_spaces(s: Seq<char>) -> Seq<Seq<char>>
    decreases s.len(),
{
    if s.len() == 0 {
        seq![Seq::<char>::empty()]
    } else {
        let prev = split_spaces(s.drop_last());
        if s.last() == ' ' {
            prev.push(Seq::<char>::empty())
        } else {
            prev.update(prev.len() - 1, prev.last().push(s.last()))
        }
    }
}

/// `s` without its newline characters.
pub open spec fn strip_newlines(s: Seq<char>) -> Seq<char> {
    s.filter(|c: char| c != '\n')
}

/// The fields of the downloader's answer: the pieces between spaces, each
/// without its newlines.
pub open spec fn probe_fields(s: Seq<char>) -> Seq<Seq<char>> {
    split_spaces(s).map_values(|p: Seq<char>| strip_newlines(p))
}

proof fn lemma_split_spaces_nonempty(s: Seq<char>)
    ensures
        split_spaces(s).len() >= 1,
    decreases s.len(),
{
    if s.len() > 0 {
        lemma_split_spaces_nonempty(s.drop_last());
    }
}

/// The fields of `text`, as [`probe_fields`] states them.
pub fn split_fields(text: &str) -> (r: Vec<String>)
    ensures
        r@.map_values(|f: String| f@) == probe_fields(text@),
{
    let chars = chars_of(text);
    let mut fields: Vec<String> = Vec::new();
    let mut current = String::new();
    let mut i: usize = 0;
    proof {
        assert(chars@.take(0) =~= Seq::<char>::empty());
        assert(strip_newlines(Seq::<char>::empty()) =~= Seq::<char>::empty());
        assert(probe_fields(Seq::<char>::empty()) =~= seq![Seq::<char>::empty()]);
        assert(fields@.map_values(|f: String| f@).push(current@) =~= seq![Seq::<char>::empty()]);
    }
    while i < chars.len()
        invariant
            i <= chars@.len(),
            chars@ == text@,
            fields@.map_values(|f: String| f@).push(current@) == probe_fields(chars@.take(i as int)),
        decreases chars@.len() - i,
    {
        let c = chars[i];
        let ghost prefix = chars@.take(i as int);
        let ghost pieces = split_spaces(prefix);
        let ghost before = fields@.map_values(|f: String| f@);
        let ghost old_current = current@;
        proof {
            assert(probe_fields(prefix).len() == pieces.len());
            assert(probe_fields(prefix)[pieces.len() - 1] == strip_newlines(pieces.last()));
            assert(before.push(old_current)[pieces.len() - 1] == old_current);
            assert(old_current == strip_newlines(pieces.last()));
            lemma_split_spaces_nonempty(prefix);
            assert(chars@.take(i + 1).drop_last() =~= prefix);
            assert(chars@.take(i + 1).last() == c);
        }
        if c == ' ' {
            let done = current;
            fields.push(done);
            current = String::new();
            proof {
                assert(fields@.map_values(|f: String| f@) =~= before.push(done@));
                assert(strip_newlines(Seq::<char>::empty()) =~= Seq::<char>::empty());
                assert(probe_fields(chars@.take(i + 1)) =~= probe_fields(prefix).push(Seq::<char>::empty()));
                assert(fields@.map_values(|f: String| f@).push(current@) =~= before.push(old_current).push(Seq::<char>::empty()));
            }
        } else if c == '\n' {
            proof {
                let last = pieces.last();
                last.lemma_filter_push(c, |c: char| c != '\n');
                assert(probe_fields(chars@.take(i + 1)) =~= probe_fields(prefix));
            }
        } else {
            string_push(&mut current, c);
            proof {
                let last = pieces.last();
                last.lemma_filter_push(c, |c: char| c != '\n');
                assert(probe_fields(chars@.take(i + 1)) =~= probe_fields(prefix).update(
                    pieces.len() - 1,
                    strip_newlines(last).push(c),
                ));
                assert(fields@.map_values(|f: String| f@).push(current@) =~= before.push(old_current).update(
                    pieces.len() - 1,
                    old_current.push(c),
                ));
            }
        }
        i = i + 1;
    }
    proof {
        assert(chars@.take(i as int) =~= chars@);
    }
    let ghost with_current = fields@.map_values(|f: String| f@).push(current@);
    let last = current;
    fields.push(last);
    proof {
        assert(fields@.map_values(|f: String| f@) =~= with_current);
    }
    fields
}

pub open spec fn is_digit(c: char) -> bool {
    '0' <= c <= '9'
}

pub open spec fn digit_value(c: char) -> nat {
    (c as int - '0' as int) as nat
}

/// The number that the decimal digits `d` write.
pub open spec fn decimal(d: Seq<char>) -> nat
    decreases d.len(),
{
    if d.len() == 0 {
        0
    } else {
        decimal(d.drop_last()) * 10 + digit_value(d.last())
    }
}

/// `s` without the one `+` that may lead it.
pub open spec fn unsigned_digits(s: Seq<char>) -> Seq<char> {
    if s.len() > 0 && s[0] == '+' {
        s.drop_first()
    } else {
        s
    }
}

pub open spec fn all_digits(d: Seq<char>) -> bool {
    forall|i: int| 0 <= i < d.len() ==> is_digit(#[trigger] d[i])
}

/// What `str::parse::<u32>` gives: an optional `+`, then one or more decimal
/// digits and nothing else, writing a number that fits in 32 bits.
pub open spec fn parse_u32(s: Seq<char>) -> Option<u32> {
    let digits = unsigned_digits(s);
    if digits.len() > 0 && all_digits(digits) && decimal(digits) <= u32::MAX {
        Some(decimal(digits) as u32)
    } else {
        None
    }
}

proof fn lemma_decimal_grows(d: Seq<char>, k: int)
    requires
        0 <= k <= d.len(),
    ensures
        decimal(d.take(k)) <= decimal(d),
    decreases d.len() - k,
{
    if k < d.len() {
        lemma_decimal_grows(d, k + 1);
        assert(d.take(k + 1).drop_last() =~= d.take(k));
    } else {
        assert(d.take(k) =~= d);
    }
}

/// The number that `text` writes in decimal, as `str::parse::<u32>` reads it.
pub fn parse_u32_decimal(text: &str) -> (r: Option<u32>)
    ensures
        r == parse_u32(text@),
{
    let chars = chars_of(text);
    let start: usize = if chars.len() > 0 && chars[0] == '+' {
        1
    } else {
        0
    };
    let ghost digits = unsigned_digits(text@);
    proof {
        assert(digits =~= chars@.subrange(start as int, chars@.len() as int));
    }
    if start == chars.len() {
        return None;
    }
    let mut value: u64 = 0;
    let mut i: usize = start;
    while i < chars.len()
        invariant
            start <= i <= chars@.len(),
            chars@ == text@,
            digits == unsigned_digits(text@),
            digits =~= chars@.subrange(start as int, chars@.len() as int),
            value == decimal(digits.take(i - start)),
            value <= u32::MAX,
            forall|j: int| 0 <= j < i - start ==> is_digit(#[trigger] digits[j]),
        decreases chars@.len() - i,
    {
        let c = chars[i];
        proof {
            assert(digits[i - start] == c);
            assert(digits.take(i - start + 1).drop_last() =~= digits.take(i - start));
        }
        if !('0' <= c && c <= '9') {
            proof {
                assert(!is_digit(digits[i - start]));
            }
            return None;
        }
        let d = (c as u32 - '0' as u32) as u64;
        value = value * 10 + d;
        proof {
            assert(digits.take(i - start + 1).last() == c);
            assert(d == digit_value(c));
            assert(value == decimal(digits.take(i - start + 1)));
        }
        if value > 0xffff_ffffu64 {
            proof {
                lemma_decimal_grows(digits, i - start + 1);
            }
            return None;
        }
        i = i + 1;
    }
    proof {
        assert(digits.take(i - start) =~= digits);
    }
    Some(value as u32)
}

/// What the downloader says of a video: its id and its duration in seconds.
#[derive(Debug, Clone, PartialEq, Eq)]
pub struct Probe {
    pub id: String,
    pub duration: u32,
}

impl View for Probe {
    type V = (Seq<char>, u32);

    open spec fn view(&self) -> (Seq<char>, u32) {
        (self.id@, self.duration)
    }
}

/// Why the downloader's answer could not be read.
#[derive(Debug, Clone, Copy, PartialEq, Eq, Structural)]
pub enum ProbeError {
    /// Fewer than two fields: the video cannot be had.
    TooFewFields,
    /// The second field is no duration.
    BadDuration,
}

/// The id and the duration in the downloader's answer: the first field and
/// the second read as a number.
pub open spec fn probe_of(s: Seq<char>) -> Result<(Seq<char>, u32), ProbeError> {
    let f = probe_fields(s);
    if f.len() < 2 {
        Err(ProbeError::TooFewFields)
    } else {
        match parse_u32(f[1]) {
            Some(d) => Ok((f[0], d)),
            None => Err(ProbeError::BadDuration),
        }
    }
}

/// Reads the downloader's answer about a video.
pub fn parse_probe(stdout: &str) -> (r: Result<Probe, ProbeError>)
    ensures
        match r {
            Ok(p) => probe_of(stdout@) == Ok::<(Seq<char>, u32), ProbeError>(p@),
            Err(e) => probe_of(stdout@) == Err::<(Seq<char>, u32), ProbeError>(e),
        },
{
    let fields = split_fields(stdout);
    proof {
        assert(fields@.map_values(|f: String| f@).len() == fields@.len());
    }
    if fields.len() < 2 {
        return Err(ProbeError::TooFewFields);
    }
    proof {
        assert(fields@.map_values(|f: String| f@)[0] == fields@[0]@);
        assert(fields@.map_values(|f: String| f@)[1] == fields@[1]@);
    }
    match parse_u32_decimal(fields[1].as_str()) {
        Some(duration) => Ok(Probe { id: fields[0].clone(), duration }),
        None => Err(ProbeError::BadDuration),
    }
}

} // verus!
