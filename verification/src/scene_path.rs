//! Scene references of the form `path#Scene<N>`.
//!
//! A glTF file may bundle several scenes. The viewer's argument names the file
//! and, optionally, one scene in it: `model.glb#Scene2` is scene 2 of
//! `model.glb`. Only the text after the last `#` is looked at, and only when it
//! is the word `Scene` followed by a decimal number is it taken off the path.
//! Anything else is a plain path, `#` characters included, with scene 0.

use vstd::prelude::*;
use vstd::string::*;

verus! {

/// Whether `c` is one of the ten ASCII decimal digits.
pub open spec fn is_digit(c: char) -> bool {
    '0' <= c && c <= '9'
}

/// The number that the digit `c` stands for.
pub open spec fn digit_value(c: char) -> int {
    c as int - '0' as int
}

/// Whether `digits` is a decimal number: one or more ASCII digits and nothing else.
pub open spec fn is_number(digits: Seq<char>) -> bool {
    &&& digits.len() > 0
    &&& forall|i: int| 0 <= i < digits.len() ==> is_digit(#[trigger] digits[i])
}

/// The value of a decimal number, most significant digit first.
pub open spec fn decimal_value(digits: Seq<char>) -> int
    decreases digits.len(),
{
    if digits.len() == 0 {
        0
    } else {
        10 * decimal_value(digits.drop_last()) + digit_value(digits.last())
    }
}

/// The word that introduces a scene index.
pub open spec fn scene_keyword() -> Seq<char> {
    seq!['S', 'c', 'e', 'n', 'e']
}

/// The scene index that `suffix` denotes, if it denotes one: the keyword,
/// then a decimal number that fits a `usize`.
pub open spec fn suffix_index(suffix: Seq<char>) -> Option<nat> {
    let digits = suffix.skip(5);
    if suffix.len() >= 5 && suffix.take(5) == scene_keyword() && is_number(digits)
        && decimal_value(digits) <= usize::MAX {
        Some(decimal_value(digits) as nat)
    } else {
        None
    }
}

/// The asset path and the scene index that `s` names.
///
/// The text after the last `#` is taken off when it denotes a scene index;
/// otherwise the whole of `s` is the path and the index is 0.
pub open spec fn parse_scene_spec(s: Seq<char>) -> (Seq<char>, nat) {
    match s.index_of_last('#') {
        Some(k) => match suffix_index(s.skip(k + 1)) {
            Some(index) => (s.take(k), index),
            None => (s, 0),
        },
        None => (s, 0),
    }
}

/// The characters of a string, in order.
pub fn chars_of(s: &str) -> (chars: Vec<char>)
    ensures
        chars@ == s@,
{
    let mut chars: Vec<char> = Vec::new();
    for c in it: s.chars()
        invariant
            chars@ == it.seq().take(it.index()),
    {
        chars.push(c);
    }
    chars
}

/// The position of the last `#` among `chars`.
pub fn find_last_hash(chars: &Vec<char>) -> (found: Option<usize>)
    ensures
        match found {
            Some(k) => chars@.index_of_last('#') == Some(k as int),
            None => chars@.index_of_last('#') is None,
        },
{
    let mut i: usize = chars.len();
    while i > 0
        invariant
            i <= chars.len(),
            forall|j: int| i <= j < chars.len() ==> chars@[j] != '#',
        decreases i,
    {
        i = i - 1;
        if chars[i] == '#' {
            proof {
                chars@.index_of_last_ensures('#');
            }
            return Some(i);
        }
    }
    proof {
        chars@.index_of_last_ensures('#');
    }
    None
}

/// Whether the keyword stands at position `start` of `chars`.
pub fn has_scene_keyword(chars: &Vec<char>, start: usize) -> (found: bool)
    requires
        start <= chars.len(),
    ensures
        found == (chars@.skip(start as int).len() >= 5 && chars@.skip(start as int).take(5)
            == scene_keyword()),
{
    if chars.len() - start < 5 {
        return false;
    }
    let found = chars[start] == 'S' && chars[start + 1] == 'c' && chars[start + 2] == 'e'
        && chars[start + 3] == 'n' && chars[start + 4] == 'e';
    proof {
        let head = chars@.skip(start as int).take(5);
        if found {
            assert(head =~= scene_keyword());
        } else {
            assert(head[0] == chars@[start as int]);
            assert(head[1] == chars@[start + 1]);
            assert(head[2] == chars@[start + 2]);
            assert(head[3] == chars@[start + 3]);
            assert(head[4] == chars@[start + 4]);
        }
    }
    found
}

/// A prefix of a decimal number is worth no more than the number.
pub proof fn lemma_decimal_value_grows(digits: Seq<char>, n: int)
    requires
        is_number(digits),
        0 <= n <= digits.len(),
    ensures
        0 <= decimal_value(digits.take(n)) <= decimal_value(digits),
    decreases digits.len() - n,
{
    if n == digits.len() {
        assert(digits.take(n) =~= digits);
        lemma_decimal_value_nonnegative(digits);
    } else {
        lemma_decimal_value_grows(digits, n + 1);
        assert(digits.take(n + 1).drop_last() =~= digits.take(n));
        assert(is_digit(digits[n]));
        lemma_decimal_value_nonnegative(digits.take(n));
    }
}

/// A sequence of digits has a value that is not negative.
pub proof fn lemma_decimal_value_nonnegative(digits: Seq<char>)
    requires
        forall|i: int| 0 <= i < digits.len() ==> is_digit(#[trigger] digits[i]),
    ensures
        0 <= decimal_value(digits),
    decreases digits.len(),
{
    if digits.len() > 0 {
        lemma_decimal_value_nonnegative(digits.drop_last());
        assert(is_digit(digits.last()));
    }
}

/// The value of the decimal number that `chars` holds from `start` to its
/// end, where that is a decimal number and fits a `usize`.
pub fn parse_decimal(chars: &Vec<char>, start: usize) -> (value: Option<usize>)
    requires
        start <= chars.len(),
    ensures
        value is Some <==> is_number(chars@.skip(start as int)) && decimal_value(
            chars@.skip(start as int),
        ) <= usize::MAX,
        value is Some ==> value->0 == decimal_value(chars@.skip(start as int)),
{
    let ghost digits = chars@.skip(start as int);
    if start == chars.len() {
        return None;
    }
    let mut value: usize = 0;
    let mut i: usize = start;
    while i < chars.len()
        invariant
            start <= i <= chars.len(),
            digits == chars@.skip(start as int),
            forall|j: int| 0 <= j < i - start ==> is_digit(#[trigger] digits[j]),
            value == decimal_value(digits.take(i - start)),
        decreases chars.len() - i,
    {
        let c = chars[i];
        assert(digits[i - start] == c);
        if !(c >= '0' && c <= '9') {
            return None;
        }
        let digit: usize = (c as u32 - '0' as u32) as usize;
        proof {
            assert(digits.take(i - start + 1).drop_last() =~= digits.take(i - start));
            assert(digits.take(i - start + 1).last() == c);
            assert(digit == digit_value(c));
        }
        let next = match value.checked_mul(10) {
            Some(tens) => tens.checked_add(digit),
            None => None,
        };
        match next {
            Some(grown) => {
                value = grown;
            },
            None => {
                proof {
                    if is_number(digits) {
                        lemma_decimal_value_grows(digits, i - start + 1);
                    }
                }
                return None;
            },
        }
        i = i + 1;
    }
    proof {
        assert(digits.take(i - start) =~= digits);
    }
    Some(value)
}

/// The scene index that `chars` denotes from `start` to its end, if it denotes one.
pub fn parse_suffix(chars: &Vec<char>, start: usize) -> (index: Option<usize>)
    requires
        start <= chars.len(),
    ensures
        match index {
            Some(i) => suffix_index(chars@.skip(start as int)) == Some(i as nat),
            None => suffix_index(chars@.skip(start as int)) is None,
        },
{
    if !has_scene_keyword(chars, start) {
        return None;
    }
    assert(chars@.skip(start as int).skip(5) =~= chars@.skip(start + 5));
    parse_decimal(chars, start + 5)
}

/// Splits a scene reference into the asset path and the scene index.
///
/// `model.glb#Scene2` gives `model.glb` and 2. Where the text after the last
/// `#` is not `Scene` followed by a decimal number that fits a `usize`, or
/// where there is no `#`, the argument comes back whole with index 0.
pub fn parse_scene(scene_path: String) -> (parsed: (String, usize))
    ensures
        parsed.0@ == parse_scene_spec(scene_path@).0,
        parsed.1 == parse_scene_spec(scene_path@).1,
{
    let chars = chars_of(scene_path.as_str());
    match find_last_hash(&chars) {
        Some(k) => {
            proof {
                chars@.index_of_last_ensures('#');
            }
            match parse_suffix(&chars, k + 1) {
                Some(index) => {
                    let path = scene_path.as_str().substring_char(0, k).to_owned();
                    (path, index)
                },
                None => (scene_path, 0),
            }
        },
        None => (scene_path, 0),
    }
}

/// A reference without `#` is a path as it stands, with scene 0.
pub proof fn lemma_plain_path_is_kept(s: Seq<char>)
    requires
        !s.contains('#'),
    ensures
        parse_scene_spec(s) == (s, 0nat),
{
    s.index_of_last_ensures('#');
}

/// A scene reference written as a path, `#`, the keyword and a decimal number
/// that fits a `usize` names that path and that number, whatever the path
/// holds, `#` characters included.
pub proof fn lemma_scene_suffix_is_taken(path: Seq<char>, digits: Seq<char>)
    requires
        is_number(digits),
        decimal_value(digits) <= usize::MAX,
    ensures
        parse_scene_spec(path + seq!['#'] + scene_keyword() + digits) == (
            path,
            decimal_value(digits) as nat,
        ),
{
    let s = path + seq!['#'] + scene_keyword() + digits;
    let k = path.len() as int;
    s.index_of_last_ensures('#');
    assert(s[k] == '#');
    assert(s.contains('#'));
    assert forall|j: int| k < j < s.len() implies s[j] != '#' by {
        if j >= k + 6 {
            assert(s[j] == digits[j - k - 6]);
            assert(is_digit(digits[j - k - 6]));
        }
    }
    assert(s.index_of_last('#') == Some(k));
    let suffix = s.skip(k + 1);
    assert(suffix.take(5) =~= scene_keyword());
    assert(suffix.skip(5) =~= digits);
    assert(s.take(k) =~= path);
    lemma_decimal_value_nonnegative(digits);
}

/// Whether `s` is `path`, a `#`, the keyword and `digits`, one after the other.
pub open spec fn is_scene_reference(s: Seq<char>, path: Seq<char>, digits: Seq<char>) -> bool {
    s == path + seq!['#'] + scene_keyword() + digits
}

/// What a reference names is either the reference itself with scene 0, or
/// the path and the number of which it is made with `#` and the keyword
/// between them.
pub proof fn lemma_parse_scene_cases(s: Seq<char>)
    ensures
        ({
            let (path, index) = parse_scene_spec(s);
            ||| path == s && index == 0
            ||| exists|digits: Seq<char>|
                {
                    &&& #[trigger] is_scene_reference(s, path, digits)
                    &&& is_number(digits)
                    &&& decimal_value(digits) == index
                }
        }),
{
    s.index_of_last_ensures('#');
    let (path, index) = parse_scene_spec(s);
    if let Some(k) = s.index_of_last('#') {
        let suffix = s.skip(k + 1);
        if suffix_index(suffix) is Some {
            let digits = suffix.skip(5);
            assert(suffix.take(5) == scene_keyword());
            assert(suffix =~= suffix.take(5) + digits);
            assert(s =~= s.take(k) + seq!['#'] + suffix);
            assert(path + seq!['#'] + scene_keyword() + digits =~= s);
            lemma_decimal_value_nonnegative(digits);
            assert(is_scene_reference(s, path, digits));
        }
    }
}

/// The asset that is shown when no argument names one.
pub open spec fn default_scene_path() -> Seq<char> {
    "assets/rotary_pendulum.glb"@
}

/// The asset path and the scene index for the viewer's argument: what the
/// argument names, or the bundled sample model where there is none.
pub fn requested_scene(argument: Option<String>) -> (scene: (String, usize))
    ensures
        scene.0@ == parse_scene_spec(
            match argument {
                Some(given) => given@,
                None => default_scene_path(),
            },
        ).0,
        scene.1 == parse_scene_spec(
            match argument {
                Some(given) => given@,
                None => default_scene_path(),
            },
        ).1,
{
    let scene_path = match argument {
        Some(given) => given,
        None => "assets/rotary_pendulum.glb".to_owned(),
    };
    parse_scene(scene_path)
}

} // verus!
