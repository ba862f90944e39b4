//! Validation of the free-text fields a new student record is built
//! from: name parts, an optional field, and a payment rate.

use vstd::prelude::*;

use crate::roster::SessionData;

verus! {

/// The Unicode `Alphabetic` property of a character: what
/// `char::is_alphabetic` returns, a function of the character alone.
pub uninterp spec fn is_unicode_alphabetic(c: char) -> bool;

/// The Unicode `White_Space` property of a character: what
/// `char::is_whitespace` returns, a function of the character alone.
pub uninterp spec fn is_unicode_whitespace(c: char) -> bool;

/// Relies on char::is_alphabetic: whether the character has the Unicode
/// `Alphabetic` property. The result depends on the character alone.
#[verifier::external_body]
fn char_is_alphabetic(c: char) -> (r: bool)
    ensures
        r == is_unicode_alphabetic(c),
{
    c.is_alphabetic()
}

/// Relies on char::is_whitespace: whether the character has the Unicode
/// `White_Space` property. The result depends on the character alone.
#[verifier::external_body]
fn char_is_whitespace(c: char) -> (r: bool)
    ensures
        r == is_unicode_whitespace(c),
{
    c.is_whitespace()
}

/// Length of the run of whitespace the text starts with.
pub open spec fn ws_prefix_len(s: Seq<char>) -> int
    decreases s.len(),
{
    if s.len() == 0 {
        0
    } else if is_unicode_whitespace(s[0]) {
        1 + ws_prefix_len(s.subrange(1, s.len() as int))
    } else {
        0
    }
}

/// Length of the run of whitespace the text ends with.
pub open spec fn ws_suffix_len(s: Seq<char>) -> int
    decreases s.len(),
{
    if s.len() == 0 {
        0
    } else if is_unicode_whitespace(s[s.len() - 1]) {
        1 + ws_suffix_len(s.subrange(0, s.len() - 1))
    } else {
        0
    }
}

/// The text with leading and trailing whitespace removed.
pub open spec fn trimmed(s: Seq<char>) -> Seq<char> {
    if ws_prefix_len(s) == s.len() {
        Seq::empty()
    } else {
        s.subrange(ws_prefix_len(s), s.len() - ws_suffix_len(s))
    }
}

proof fn lemma_ws_prefix_from_chars(s: Seq<char>, k: int)
    requires
        0 <= k <= s.len(),
        forall|t: int| 0 <= t < k ==> is_unicode_whitespace(#[trigger] s[t]),
        k < s.len() ==> !is_unicode_whitespace(s[k]),
    ensures
        ws_prefix_len(s) == k,
    decreases s.len(),
{
    if s.len() == 0 {
    } else if is_unicode_whitespace(s[0]) {
        assert(k > 0);
        let tail = s.subrange(1, s.len() as int);
        assert(forall|t: int| 0 <= t < k - 1 ==> #[trigger] tail[t] == s[t + 1]);
        lemma_ws_prefix_from_chars(tail, k - 1);
    } else {
        assert(k == 0);
    }
}

proof fn lemma_ws_suffix_from_chars(s: Seq<char>, k: int)
    requires
        0 <= k <= s.len(),
        forall|t: int| s.len() - k <= t < s.len() ==> is_unicode_whitespace(#[trigger] s[t]),
        k < s.len() ==> !is_unicode_whitespace(s[s.len() - k - 1]),
    ensures
        ws_suffix_len(s) == k,
    decreases s.len(),
{
    if s.len() == 0 {
    } else if is_unicode_whitespace(s[s.len() - 1]) {
        assert(k > 0);
        let init = s.subrange(0, s.len() - 1);
        assert(forall|t: int| 0 <= t < init.len() ==> #[trigger] init[t] == s[t]);
        lemma_ws_suffix_from_chars(init, k - 1);
    } else {
        assert(k == 0);
    }
}

/// The text with leading and trailing whitespace removed.
fn trim_str(s: &str) -> (r: String)
    ensures
        r@ == trimmed(s@),
{
    let n = s.unicode_len();
    let mut lo: usize = 0;
    while lo < n
        invariant_except_break
            n == s@.len(),
            lo <= n,
            forall|t: int| 0 <= t < lo ==> is_unicode_whitespace(#[trigger] s@[t]),
        ensures
            n == s@.len(),
            lo <= n,
            forall|t: int| 0 <= t < lo ==> is_unicode_whitespace(#[trigger] s@[t]),
            lo < n ==> !is_unicode_whitespace(s@[lo as int]),
        decreases n - lo,
    {
        let c = s.get_char(lo);
        if !char_is_whitespace(c) {
            break;
        }
        lo = lo + 1;
    }
    if lo == n {
        proof {
            lemma_ws_prefix_from_chars(s@, lo as int);
        }
        return String::new();
    }
    let mut hi: usize = n;
    while hi > lo
        invariant_except_break
            n == s@.len(),
            lo < n,
            !is_unicode_whitespace(s@[lo as int]),
            lo < hi <= n,
            forall|t: int| hi <= t < n ==> is_unicode_whitespace(#[trigger] s@[t]),
        ensures
            n == s@.len(),
            lo < hi <= n,
            forall|t: int| hi <= t < n ==> is_unicode_whitespace(#[trigger] s@[t]),
            !is_unicode_whitespace(s@[hi - 1]),
        decreases hi,
    {
        let c = s.get_char(hi - 1);
        if !char_is_whitespace(c) {
            break;
        }
        hi = hi - 1;
    }
    proof {
        lemma_ws_prefix_from_chars(s@, lo as int);
        lemma_ws_suffix_from_chars(s@, n - hi);
    }
    let t = s.substring_char(lo, hi);
    t.to_owned()
}

/// The decimal digit with value `d`.
pub open spec fn digit_char(d: int) -> char {
    if d == 0 {
        '0'
    } else if d == 1 {
        '1'
    } else if d == 2 {
        '2'
    } else if d == 3 {
        '3'
    } else if d == 4 {
        '4'
    } else if d == 5 {
        '5'
    } else if d == 6 {
        '6'
    } else if d == 7 {
        '7'
    } else if d == 8 {
        '8'
    } else {
        '9'
    }
}

/// Decimal rendering of a non-negative number, most significant digit
/// first, without leading zeroes.
pub open spec fn dec_digits(n: int) -> Seq<char>
    decreases n,
{
    if n < 10 {
        seq![digit_char(n)]
    } else {
        dec_digits(n / 10).push(digit_char(n % 10))
    }
}

fn digit_str(d: usize) -> (r: &'static str)
    requires
        d < 10,
    ensures
        r@ == seq![digit_char(d as int)],
{
    if d == 0 {
        let r = "0";
        proof {
            reveal_strlit("0");
            assert(r@ =~= seq![digit_char(d as int)]);
        }
        r
    } else if d == 1 {
        let r = "1";
        proof {
            reveal_strlit("1");
            assert(r@ =~= seq![digit_char(d as int)]);
        }
        r
    } else if d == 2 {
        let r = "2";
        proof {
            reveal_strlit("2");
            assert(r@ =~= seq![digit_char(d as int)]);
        }
        r
    } else if d == 3 {
        let r = "3";
        proof {
            reveal_strlit("3");
            assert(r@ =~= seq![digit_char(d as int)]);
        }
        r
    } else if d == 4 {
        let r = "4";
        proof {
            reveal_strlit("4");
            assert(r@ =~= seq![digit_char(d as int)]);
        }
        r
    } else if d == 5 {
        let r = "5";
        proof {
            reveal_strlit("5");
            assert(r@ =~= seq![digit_char(d as int)]);
        }
        r
    } else if d == 6 {
        let r = "6";
        proof {
            reveal_strlit("6");
            assert(r@ =~= seq![digit_char(d as int)]);
        }
        r
    } else if d == 7 {
        let r = "7";
        proof {
            reveal_strlit("7");
            assert(r@ =~= seq![digit_char(d as int)]);
        }
        r
    } else if d == 8 {
        let r = "8";
        proof {
            reveal_strlit("8");
            assert(r@ =~= seq![digit_char(d as int)]);
        }
        r
    } else {
        let r = "9";
        proof {
            reveal_strlit("9");
            assert(r@ =~= seq![digit_char(d as int)]);
        }
        r
    }
}

/// Decimal rendering of a number.
fn usize_to_string(n: usize) -> (r: String)
    ensures
        r@ == dec_digits(n as int),
    decreases n,
{
    if n < 10 {
        digit_str(n).to_owned()
    } else {
        let mut s = usize_to_string(n / 10);
        let d = digit_str(n % 10);
        s.append(d);
        proof {
            assert(s@ =~= dec_digits(n as int));
        }
        s
    }
}

/// Why a field's text was rejected.
#[derive(PartialEq, Eq, Debug, Clone, Copy, Structural)]
pub enum ValidityError {
    Empty,
    NotANumber,
    TooLong,
    TooShort,
    ContainsNonLetters,
}

/// Verdict on a field's text: safe to use, or rejected with the reason
/// and a message fit to show the user.
#[derive(PartialEq, Eq, Debug)]
pub enum ValidityTag {
    Safe,
    Problematic { error_type: ValidityError, message: String },
}

/// Message shown for a field that must have at least `min` characters.
pub open spec fn too_short_message(min: int) -> Seq<char> {
    "Must be at least "@ + dec_digits(min) + " characters"@
}

/// Message shown for a field that may have at most `max` characters.
pub open spec fn too_long_message(max: int) -> Seq<char> {
    "Must be no more than "@ + dec_digits(max) + " characters"@
}

/// Every character is alphabetic or whitespace.
pub open spec fn letters_only(s: Seq<char>) -> bool {
    forall|i: int|
        0 <= i < s.len() ==> is_unicode_alphabetic(#[trigger] s[i]) || is_unicode_whitespace(s[i])
}

/// A decimal digit.
pub open spec fn is_digit_char(c: char) -> bool {
    48 <= c as u32 <= 57
}

/// Count of decimal points in the text.
pub open spec fn dot_count(s: Seq<char>) -> int
    decreases s.len(),
{
    if s.len() == 0 {
        0
    } else {
        dot_count(s.drop_last()) + if s.last() == '.' {
            1int
        } else {
            0int
        }
    }
}

/// A plain non-negative decimal numeral: digits with at most one
/// decimal point, and at least one digit.
pub open spec fn is_decimal_number(s: Seq<char>) -> bool {
    &&& forall|i: int| 0 <= i < s.len() ==> (is_digit_char(#[trigger] s[i]) || s[i] == '.')
    &&& exists|i: int| 0 <= i < s.len() && is_digit_char(#[trigger] s[i])
    &&& dot_count(s) <= 1
}

/// Verdict on trimmed text that must be non-empty and fall within a
/// character-count range.
pub open spec fn length_error(t: Seq<char>, min: int, max: int) -> Option<ValidityError> {
    if t.len() == 0 {
        Option::Some(ValidityError::Empty)
    } else if t.len() < min {
        Option::Some(ValidityError::TooShort)
    } else if t.len() > max {
        Option::Some(ValidityError::TooLong)
    } else {
        Option::None
    }
}

/// Verdict on trimmed text offered as a person's name: within 2 to 50
/// characters and made of letters and spaces.
pub open spec fn name_error(t: Seq<char>) -> Option<ValidityError> {
    if t.len() == 0 {
        Option::Some(ValidityError::Empty)
    } else if t.len() < 2 {
        Option::Some(ValidityError::TooShort)
    } else if t.len() > 50 {
        Option::Some(ValidityError::TooLong)
    } else if !letters_only(t) {
        Option::Some(ValidityError::ContainsNonLetters)
    } else {
        Option::None
    }
}

/// Verdict on trimmed text offered as a payment rate: non-empty and a
/// plain decimal numeral.
pub open spec fn number_error(t: Seq<char>) -> Option<ValidityError> {
    if t.len() == 0 {
        Option::Some(ValidityError::Empty)
    } else if !is_decimal_number(t) {
        Option::Some(ValidityError::NotANumber)
    } else {
        Option::None
    }
}

/// Trims the text and rejects it when nothing is left.
pub fn validate_empty(input: String) -> (r: (String, ValidityTag))
    ensures
        r.0@ == trimmed(input@),
        r.1 is Safe <==> trimmed(input@).len() > 0,
        r.1 matches ValidityTag::Problematic { error_type, message } ==> error_type
            == ValidityError::Empty && message@ == "Field cannot be empty"@,
{
    let input = trim_str(input.as_str());
    if input.as_str().is_empty() {
        return (
            input,
            ValidityTag::Problematic {
                error_type: ValidityError::Empty,
                message: "Field cannot be empty".to_owned(),
            },
        );
    }
    (input, ValidityTag::Safe)
}

/// Trims the text and rejects it when it is empty or its character
/// count falls outside `min..=max`.
pub fn validate_length(input: String, min: usize, max: usize) -> (r: (String, ValidityTag))
    ensures
        r.0@ == trimmed(input@),
        r.1 is Safe <==> length_error(trimmed(input@), min as int, max as int) is None,
        r.1 matches ValidityTag::Problematic { error_type, message } ==> {
            &&& Option::Some(error_type) == length_error(trimmed(input@), min as int, max as int)
            &&& (error_type == ValidityError::Empty ==> message@ == "Field cannot be empty"@)
            &&& (error_type == ValidityError::TooShort ==> message@ == too_short_message(min as int))
            &&& (error_type == ValidityError::TooLong ==> message@ == too_long_message(max as int))
        },
{
    let (input, tag) = validate_empty(input);
    if !matches!(tag, ValidityTag::Safe) {
        return (input, tag);
    }
    if input.as_str().unicode_len() < min {
        let mut message = "Must be at least ".to_owned();
        message.append(usize_to_string(min).as_str());
        message.append(" characters");
        proof {
            assert(message@ =~= too_short_message(min as int));
        }
        return (
            input,
            ValidityTag::Problematic { error_type: ValidityError::TooShort, message },
        );
    }
    if input.as_str().unicode_len() > max {
        let mut message = "Must be no more than ".to_owned();
        message.append(usize_to_string(max).as_str());
        message.append(" characters");
        proof {
            assert(message@ =~= too_long_message(max as int));
        }
        return (
            input,
            ValidityTag::Problematic { error_type: ValidityError::TooLong, message },
        );
    }
    (input, ValidityTag::Safe)
}

/// Rejects text holding any character that is neither alphabetic nor
/// whitespace. The text is returned unchanged.
pub fn validate_letters_only(input: String) -> (r: (String, ValidityTag))
    ensures
        r.0@ == input@,
        r.1 is Safe <==> letters_only(input@),
        r.1 matches ValidityTag::Problematic { error_type, message } ==> error_type
            == ValidityError::ContainsNonLetters && message@ == "Name should only contain letters"@,
{
    let n = input.as_str().unicode_len();
    let mut i: usize = 0;
    while i < n
        invariant
            n == input@.len(),
            i <= n,
            forall|t: int|
                0 <= t < i ==> is_unicode_alphabetic(#[trigger] input@[t]) || is_unicode_whitespace(
                    input@[t],
                ),
        decreases n - i,
    {
        let c = input.as_str().get_char(i);
        if !char_is_alphabetic(c) && !char_is_whitespace(c) {
            return (
                input,
                ValidityTag::Problematic {
                    error_type: ValidityError::ContainsNonLetters,
                    message: "Name should only contain letters".to_owned(),
                },
            );
        }
        i = i + 1;
    }
    (input, ValidityTag::Safe)
}

/// Trims text offered as a person's name and checks it: 2 to 50
/// characters, letters and spaces only.
pub fn validate_name(name: String) -> (r: (String, ValidityTag))
    ensures
        r.0@ == trimmed(name@),
        r.1 is Safe <==> name_error(trimmed(name@)) is None,
        r.1 matches ValidityTag::Problematic { error_type, .. } ==> Option::Some(error_type)
            == name_error(trimmed(name@)),
{
    let (name, tag) = validate_length(name, 2, 50);
    if !matches!(tag, ValidityTag::Safe) {
        return (name, tag);
    }
    validate_letters_only(name)
}

/// Trims text offered as a payment rate and checks that it is a plain
/// non-negative decimal numeral.
pub fn validate_number(rate: String) -> (r: (String, ValidityTag))
    ensures
        r.0@ == trimmed(rate@),
        r.1 is Safe <==> number_error(trimmed(rate@)) is None,
        r.1 matches ValidityTag::Problematic { error_type, message } ==> {
            &&& Option::Some(error_type) == number_error(trimmed(rate@))
            &&& (error_type == ValidityError::Empty ==> message@ == "Rate cannot be empty"@)
            &&& (error_type == ValidityError::NotANumber ==> message@
                == "Must be a valid number"@)
        },
{
    let trimmed_rate = trim_str(rate.as_str());
    if trimmed_rate.as_str().is_empty() {
        return (
            trimmed_rate,
            ValidityTag::Problematic {
                error_type: ValidityError::Empty,
                message: "Rate cannot be empty".to_owned(),
            },
        );
    }
    let n = trimmed_rate.as_str().unicode_len();
    let mut has_digit = false;
    let mut dots: usize = 0;
    let mut i: usize = 0;
    while i < n
        invariant
            trimmed_rate@ == trimmed(rate@),
            trimmed_rate@.len() > 0,
            n == trimmed_rate@.len(),
            i <= n,
            forall|t: int|
                0 <= t < i ==> (is_digit_char(#[trigger] trimmed_rate@[t]) || trimmed_rate@[t]
                    == '.'),
            has_digit == exists|t: int| 0 <= t < i && is_digit_char(#[trigger] trimmed_rate@[t]),
            dots == dot_count(trimmed_rate@.subrange(0, i as int)),
            dots <= i,
        decreases n - i,
    {
        let c = trimmed_rate.as_str().get_char(i);
        let cv = c as u32;
        proof {
            assert(trimmed_rate@.subrange(0, i + 1).drop_last() =~= trimmed_rate@.subrange(
                0,
                i as int,
            ));
        }
        if 48 <= cv && cv <= 57 {
            has_digit = true;
        } else if cv == 46 {
            proof {
                assert(c == '.');
            }
            dots = dots + 1;
        } else {
            proof {
                assert(c != '.');
                assert(!is_digit_char(c));
            }
            return (
                trimmed_rate,
                ValidityTag::Problematic {
                    error_type: ValidityError::NotANumber,
                    message: "Must be a valid number".to_owned(),
                },
            );
        }
        i = i + 1;
    }
    proof {
        assert(trimmed_rate@.subrange(0, n as int) =~= trimmed_rate@);
    }
    if !has_digit || dots > 1 {
        return (
            trimmed_rate,
            ValidityTag::Problematic {
                error_type: ValidityError::NotANumber,
                message: "Must be a valid number".to_owned(),
            },
        );
    }
    (trimmed_rate, ValidityTag::Safe)
}

/// Trims an optional field and rejects it only when, non-empty, it
/// exceeds `max` characters.
pub fn validate_optional_field(input: String, max: usize) -> (r: (String, ValidityTag))
    ensures
        r.0@ == trimmed(input@),
        r.1 is Safe <==> (trimmed(input@).len() == 0 || trimmed(input@).len() <= max),
        r.1 matches ValidityTag::Problematic { error_type, message } ==> error_type
            == ValidityError::TooLong && message@ == too_long_message(max as int),
{
    let input = trim_str(input.as_str());
    if input.as_str().is_empty() {
        return (input, ValidityTag::Safe);
    }
    if input.as_str().unicode_len() > max {
        let mut message = "Must be no more than ".to_owned();
        message.append(usize_to_string(max).as_str());
        message.append(" characters");
        proof {
            assert(message@ =~= too_long_message(max as int));
        }
        return (
            input,
            ValidityTag::Problematic { error_type: ValidityError::TooLong, message },
        );
    }
    (input, ValidityTag::Safe)
}

/// A weekly schedule as entered in the add-student form.
#[derive(Default, Debug, Clone)]
pub struct WeeklySchedule(pub Vec<SessionData>);

/// The raw text of the add-student form.
#[derive(Default, Debug, Clone)]
pub struct ModalInput {
    pub first_name: String,
    pub last_name: String,
    pub other_names: String,
    pub subject: String,
    pub pay_rate: String,
    pub weekly_schedule: WeeklySchedule,
}

/// The form's text fields, each with its verdict.
#[derive(Debug)]
pub struct ValidatedStudent {
    pub first: (String, ValidityTag),
    pub last: (String, ValidityTag),
    pub other: (String, ValidityTag),
    pub rate: (String, ValidityTag),
}

impl ValidatedStudent {
    /// Every field passed validation.
    pub fn is_valid(&self) -> (r: bool)
        ensures
            r == (self.first.1 is Safe && self.last.1 is Safe && self.other.1 is Safe
                && self.rate.1 is Safe),
    {
        matches!(self.first.1, ValidityTag::Safe) && matches!(self.last.1, ValidityTag::Safe)
            && matches!(self.other.1, ValidityTag::Safe) && matches!(
            self.rate.1,
            ValidityTag::Safe,
        )
    }
}

/// Validates the form's text fields: the two name parts as names, the
/// other names as an optional field of at most 100 characters, and the
/// rate as a decimal numeral.
pub fn validate_student(modal_input: ModalInput) -> (r: ValidatedStudent)
    ensures
        r.first.0@ == trimmed(modal_input.first_name@),
        r.first.1 is Safe <==> name_error(trimmed(modal_input.first_name@)) is None,
        r.last.0@ == trimmed(modal_input.last_name@),
        r.last.1 is Safe <==> name_error(trimmed(modal_input.last_name@)) is None,
        r.other.0@ == trimmed(modal_input.other_names@),
        r.other.1 is Safe <==> (trimmed(modal_input.other_names@).len() == 0 || trimmed(
            modal_input.other_names@,
        ).len() <= 100),
        r.rate.0@ == trimmed(modal_input.pay_rate@),
        r.rate.1 is Safe <==> number_error(trimmed(modal_input.pay_rate@)) is None,
{
    ValidatedStudent {
        first: validate_name(modal_input.first_name),
        last: validate_name(modal_input.last_name),
        other: validate_optional_field(modal_input.other_names, 100),
        rate: validate_number(modal_input.pay_rate),
    }
}

} // verus!
