//! Decimal numbers of any precision, kept as the text they were written in.

use vstd::prelude::*;

verus! {

broadcast use vstd::string::group_string_axioms;

/// A decimal literal and what it denotes: a sign, the digit characters of the whole
/// part followed by those of the fraction, and the length of the fraction.
pub ghost struct DecimalModel {
    pub text: Seq<char>,
    pub negative: bool,
    pub digits: Seq<char>,
    pub scale: nat,
}

/// The value of a decimal digit character; `None` for any other character.
pub open spec fn digit_of(c: char) -> Option<nat> {
    if c == '0' {
        Some(0)
    } else if c == '1' {
        Some(1)
    } else if c == '2' {
        Some(2)
    } else if c == '3' {
        Some(3)
    } else if c == '4' {
        Some(4)
    } else if c == '5' {
        Some(5)
    } else if c == '6' {
        Some(6)
    } else if c == '7' {
        Some(7)
    } else if c == '8' {
        Some(8)
    } else if c == '9' {
        Some(9)
    } else {
        None
    }
}

pub open spec fn is_digit(c: char) -> bool {
    digit_of(c) is Some
}

/// Whether `c` is one of `0` to `9`.
pub fn is_digit_char(c: char) -> (digit: bool)
    ensures
        digit == is_digit(c),
{
    let code: u32 = c as u32;
    code >= 48 && code <= 57
}

pub open spec fn all_digits(s: Seq<char>) -> bool {
    forall|i: int| 0 <= i < s.len() ==> is_digit(#[trigger] s[i])
}

/// The number that a run of digit characters writes in base ten.
pub open spec fn digits_value(s: Seq<char>) -> nat
    decreases s.len(),
{
    if s.len() == 0 {
        0
    } else {
        digits_value(s.drop_last()) * 10 + digit_of(s.last()).unwrap_or(0)
    }
}

impl DecimalModel {
    /// The number without its decimal point: the value is `unscaled / 10^scale`,
    /// negated where `negative` holds.
    pub open spec fn unscaled(self) -> nat {
        digits_value(self.digits)
    }

    /// Every digit is `0`.
    pub open spec fn is_zero(self) -> bool {
        forall|i: int| 0 <= i < self.digits.len() ==> #[trigger] self.digits[i] == '0'
    }

    /// The model is what its own text denotes.
    pub open spec fn wf(self) -> bool {
        spec_parse(self.text) == Some(self)
    }
}

/// Whether `text` starts with a sign character.
pub open spec fn has_sign(text: Seq<char>) -> bool {
    text.len() > 0 && (text[0] == '-' || text[0] == '+')
}

/// The literal without its sign.
pub open spec fn body_of(text: Seq<char>) -> Seq<char> {
    if has_sign(text) {
        text.skip(1)
    } else {
        text
    }
}

/// The characters before the point, or all of them where there is none.
pub open spec fn whole_part(body: Seq<char>) -> Seq<char> {
    if body.contains('.') {
        body.take(body.index_of('.'))
    } else {
        body
    }
}

/// The characters after the point; empty where there is none.
pub open spec fn fraction_part(body: Seq<char>) -> Seq<char> {
    if body.contains('.') {
        body.skip(body.index_of('.') + 1)
    } else {
        Seq::<char>::empty()
    }
}

/// The grammar of a decimal literal: an optional sign, then digits with at most one
/// point among them, and at least one digit. `None` where `text` is not of that form.
pub open spec fn spec_parse(text: Seq<char>) -> Option<DecimalModel> {
    let whole = whole_part(body_of(text));
    let fraction = fraction_part(body_of(text));
    if all_digits(whole) && all_digits(fraction) && whole.len() + fraction.len() > 0 {
        Some(
            DecimalModel {
                text,
                negative: text.len() > 0 && text[0] == '-',
                digits: whole + fraction,
                scale: fraction.len(),
            },
        )
    } else {
        None
    }
}

/// Where every character of `body` but the one at `dot` is a digit, the point splits
/// it there.
proof fn lemma_split_at_point(body: Seq<char>, dot: Option<int>)
    requires
        dot matches Some(p) ==> 0 <= p < body.len() && body[p] == '.',
        forall|k: int| 0 <= k < body.len() && dot != Some(k) ==> is_digit(#[trigger] body[k]),
    ensures
        whole_part(body) == (match dot {
            Some(p) => body.take(p),
            None => body,
        }),
        fraction_part(body) == (match dot {
            Some(p) => body.skip(p + 1),
            None => Seq::<char>::empty(),
        }),
        all_digits(whole_part(body)),
        all_digits(fraction_part(body)),
{
    match dot {
        Some(p) => {
            assert(body.contains('.'));
            let found = body.index_of('.');
            assert(found == p) by {
                if found != p {
                    assert(is_digit(body[found]));
                }
            }
            assert forall|i: int| 0 <= i < body.take(p).len() implies is_digit(
                #[trigger] body.take(p)[i],
            ) by {
                assert(body.take(p)[i] == body[i]);
            }
            assert forall|i: int| 0 <= i < body.skip(p + 1).len() implies is_digit(
                #[trigger] body.skip(p + 1)[i],
            ) by {
                assert(body.skip(p + 1)[i] == body[i + p + 1]);
            }
        },
        None => {
            if body.contains('.') {
                let found = body.index_of('.');
                assert(is_digit(body[found]));
            }
        },
    }
}

/// A character that is neither digit nor point, or a second point, spoils the literal.
proof fn lemma_spoiled(body: Seq<char>, culprit: int, second: int)
    requires
        0 <= culprit < body.len(),
        (!is_digit(body[culprit]) && body[culprit] != '.') || (0 <= second < culprit
            && body[second] == '.' && body[culprit] == '.'),
    ensures
        !(all_digits(whole_part(body)) && all_digits(fraction_part(body))),
{
    let whole = whole_part(body);
    let fraction = fraction_part(body);
    if body.contains('.') {
        let found = body.index_of('.');
        let other = if body[culprit] != '.' || found != culprit {
            culprit
        } else {
            second
        };
        assert(other != found && !is_digit(body[other]));
        if other < found {
            assert(whole[other] == body[other]);
        } else {
            assert(fraction[other - found - 1] == body[other]);
        }
    } else {
        assert(whole[culprit] == body[culprit]);
    }
}

/// A decimal number of any precision.
#[derive(Debug, PartialEq, Eq)]
pub struct Decimal {
    text: String,
    negative: bool,
    scale: usize,
    zero: bool,
}

impl View for Decimal {
    type V = DecimalModel;

    closed spec fn view(&self) -> DecimalModel {
        spec_parse(self.text@).unwrap()
    }
}

impl Clone for Decimal {
    fn clone(&self) -> (copy: Decimal)
        ensures
            copy@ == self@,
    {
        proof {
            use_type_invariant(self);
        }
        Decimal {
            text: self.text.clone(),
            negative: self.negative,
            scale: self.scale,
            zero: self.zero,
        }
    }
}

impl Decimal {
    #[verifier::type_invariant]
    closed spec fn inv(&self) -> bool {
        &&& spec_parse(self.text@) is Some
        &&& self.negative == self@.negative
        &&& self.scale == self@.scale
        &&& self.zero == self@.is_zero()
    }

    /// The literal as it was written.
    pub fn as_str(&self) -> (text: &str)
        ensures
            text@ == self@.text,
            spec_parse(text@) == Some(self@),
    {
        proof {
            use_type_invariant(self);
        }
        self.text.as_str()
    }

    /// Whether the number is zero, whatever its sign and scale.
    pub fn is_zero(&self) -> (zero: bool)
        ensures
            zero == self@.is_zero(),
    {
        proof {
            use_type_invariant(self);
        }
        self.zero
    }

    /// Whether the literal carries a minus sign.
    pub fn is_negative(&self) -> (negative: bool)
        ensures
            negative == self@.negative,
    {
        proof {
            use_type_invariant(self);
        }
        self.negative
    }

    /// The number of digits after the point.
    pub fn scale(&self) -> (scale: usize)
        ensures
            scale == self@.scale,
    {
        proof {
            use_type_invariant(self);
        }
        self.scale
    }

    /// Reads a decimal literal. Succeeds exactly on the texts of the grammar.
    pub fn parse(text: &str) -> (parsed: Option<Decimal>)
        ensures
            match parsed {
                Some(d) => spec_parse(text@) == Some(d@),
                None => spec_parse(text@) is None,
            },
    {
        let ghost full = text@;
        let ghost start: int = if has_sign(full) { 1 } else { 0 };
        let length: usize = text.unicode_len();
        let mut negative = false;
        let mut dot: Option<usize> = None;
        let mut count: usize = 0;
        let mut digits: usize = 0;
        let mut zero = true;
        let mut valid = true;
        let ghost mut culprit: int = 0;
        let ghost mut second: int = 0;
        for c in it: text.chars()
            invariant
                it.seq() == full,
                full.len() == length,
                start == (if has_sign(full) { 1int } else { 0int }),
                count == it.index(),
                count > 0 ==> negative == (full[0] == '-'),
                count == 0 ==> !negative && dot is None && valid && digits == 0 && zero,
                valid ==> scanned(full, start, count as int, point_of(dot), digits as int, zero),
                !valid ==> spoiled(full, start, count as int, culprit, second),
        {
            assert(c == full[count as int]);
            if count == 0 && (c == '-' || c == '+') {
                negative = c == '-';
            } else {
                if count == 0 {
                    negative = false;
                }
                if is_digit_char(c) {
                    if valid {
                        proof {
                            lemma_scan_digit(full, start, count as int, point_of(dot), digits as int, zero);
                        }
                        digits = digits + 1;
                        if c != '0' {
                            zero = false;
                        }
                    }
                } else if c == '.' {
                    if valid {
                        match dot {
                            Some(p) => {
                                valid = false;
                                proof {
                                    culprit = count as int;
                                    second = p as int;
                                }
                            },
                            None => {
                                proof {
                                    lemma_scan_point(full, start, count as int, digits as int, zero);
                                }
                                dot = Some(count);
                            },
                        }
                    }
                } else {
                    if valid {
                        valid = false;
                        proof {
                            culprit = count as int;
                        }
                    }
                }
            }
            count = count + 1;
        }
        proof {
            lemma_scan_complete(full, point_of(dot), digits as int, zero, valid, culprit, second);
        }
        if valid && digits > 0 {
            let scale: usize = match dot {
                Some(p) => count - p - 1,
                None => 0,
            };
            Some(Decimal { text: text.to_owned(), negative, scale, zero })
        } else {
            None
        }
    }
}

/// What a literal denotes has at least one digit, digits only, and a fraction no
/// longer than the digits; and it is well formed.
pub proof fn law_parsed_is_well_formed(text: Seq<char>)
    requires
        spec_parse(text) is Some,
    ensures
        spec_parse(text).unwrap().wf(),
        spec_parse(text).unwrap().text == text,
        spec_parse(text).unwrap().digits.len() > 0,
        all_digits(spec_parse(text).unwrap().digits),
        spec_parse(text).unwrap().scale <= spec_parse(text).unwrap().digits.len(),
{
}

/// A run of digits writes zero exactly when each of them is `0`.
pub proof fn law_zero_digits(digits: Seq<char>)
    requires
        all_digits(digits),
    ensures
        digits_value(digits) == 0 <==> forall|i: int|
            0 <= i < digits.len() ==> #[trigger] digits[i] == '0',
    decreases digits.len(),
{
    if digits.len() > 0 {
        let front = digits.drop_last();
        law_zero_digits(front);
        assert(is_digit(digits.last()));
        if digits_value(digits) == 0 {
            assert forall|i: int| 0 <= i < digits.len() implies #[trigger] digits[i] == '0' by {
                if i < front.len() {
                    assert(front[i] == digits[i]);
                }
            }
        } else if digits_value(front) != 0 {
            let i = choose|i: int| 0 <= i < front.len() && #[trigger] front[i] != '0';
            assert(digits[i] == front[i]);
        }
    }
}

/// The position of the point found so far, as a mathematical integer.
spec fn point_of(dot: Option<usize>) -> Option<int> {
    match dot {
        Some(p) => Some(p as int),
        None => None,
    }
}

/// What a scan of `full` up to `upto` has established while the literal is still
/// well formed: where the point is, that all else is digits, how many digits there
/// are, and whether all of them are `0`.
spec fn scanned(
    full: Seq<char>,
    start: int,
    upto: int,
    point: Option<int>,
    digits: int,
    zero: bool,
) -> bool {
    &&& upto <= full.len()
    &&& point matches Some(p) ==> start <= p < upto && full[p] == '.'
    &&& forall|j: int| start <= j < upto && point != Some(j) ==> is_digit(#[trigger] full[j])
    &&& digits == (if upto <= start {
        0int
    } else {
        upto - start - (if point is Some {
            1int
        } else {
            0int
        })
    })
    &&& zero <==> forall|j: int| start <= j < upto && point != Some(j) ==> #[trigger] full[j] == '0'
}

/// Scanning one more digit.
proof fn lemma_scan_digit(
    full: Seq<char>,
    start: int,
    upto: int,
    point: Option<int>,
    digits: int,
    zero: bool,
)
    requires
        scanned(full, start, upto, point, digits, zero),
        start <= upto < full.len(),
        is_digit(full[upto]),
    ensures
        scanned(full, start, upto + 1, point, digits + 1, zero && full[upto] == '0'),
{
    if zero && full[upto] == '0' {
        assert forall|j: int| start <= j < upto + 1 && point != Some(j) implies #[trigger] full[j]
            == '0' by {}
    } else if !zero {
        let j = choose|j: int| start <= j < upto && point != Some(j) && #[trigger] full[j] != '0';
        assert(full[j] != '0');
    }
}

/// Scanning the first point.
proof fn lemma_scan_point(full: Seq<char>, start: int, upto: int, digits: int, zero: bool)
    requires
        scanned(full, start, upto, None, digits, zero),
        start <= upto < full.len(),
        full[upto] == '.',
    ensures
        scanned(full, start, upto + 1, Some(upto), digits, zero),
{
    if !zero {
        let j = choose|j: int| start <= j < upto && #[trigger] full[j] != '0';
        assert(full[j] != '0' && Some(upto) != Some(j));
    }
}

/// What a scan has found once the literal is known to be malformed.
spec fn spoiled(full: Seq<char>, start: int, upto: int, culprit: int, second: int) -> bool {
    &&& upto <= full.len()
    &&& start <= culprit < upto
    &&& (!is_digit(full[culprit]) && full[culprit] != '.') || (start <= second < culprit
        && full[second] == '.' && full[culprit] == '.')
}

/// A finished scan decides the grammar: a well-formed scan with a digit yields the
/// model that the flags describe, anything else yields none.
proof fn lemma_scan_complete(
    full: Seq<char>,
    point: Option<int>,
    digits: int,
    zero: bool,
    valid: bool,
    culprit: int,
    second: int,
)
    requires
        valid ==> scanned(full, if has_sign(full) { 1int } else { 0int }, full.len() as int, point, digits, zero),
        !valid ==> spoiled(full, if has_sign(full) { 1int } else { 0int }, full.len() as int, culprit, second),
    ensures
        valid && digits > 0 ==> {
            &&& spec_parse(full) matches Some(model)
            &&& model.is_zero() == zero
            &&& model.scale == (match point {
                Some(p) => full.len() - p - 1,
                None => 0,
            })
        },
        !(valid && digits > 0) ==> spec_parse(full) is None,
{
    let start: int = if has_sign(full) { 1 } else { 0 };
    let body = body_of(full);
    let shifted: Option<int> = match point {
        Some(p) => Some(p - start),
        None => None,
    };
    assert(body == full.skip(start));
    assert forall|k: int| 0 <= k < body.len() implies #[trigger] body[k] == full[k + start] by {}
    if valid {
        assert forall|k: int| 0 <= k < body.len() && shifted != Some(k) implies is_digit(
            #[trigger] body[k],
        ) by {
            assert(is_digit(full[k + start]));
        }
        lemma_split_at_point(body, shifted);
        let whole = whole_part(body);
        let fraction = fraction_part(body);
        assert(whole.len() + fraction.len() == digits);
        if digits > 0 {
            let model = spec_parse(full).unwrap();
            assert(model.digits == whole + fraction);
            if zero {
                assert forall|i: int| 0 <= i < model.digits.len() implies #[trigger] model.digits[i]
                    == '0' by {
                    if i < whole.len() {
                        assert(model.digits[i] == full[i + start]);
                    } else {
                        assert(model.digits[i] == full[i + 1 + start]);
                    }
                }
            } else {
                let j = choose|j: int|
                    start <= j < full.len() && point != Some(j) && #[trigger] full[j] != '0';
                let i = if j - start < whole.len() {
                    j - start
                } else {
                    j - start - 1
                };
                assert(model.digits[i] == full[j]);
            }
        }
    } else {
        lemma_spoiled(body, culprit - start, second - start);
    }
}

} // verus!
