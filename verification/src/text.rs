//! Text helpers shared by the other modules: searching, trimming, joining
//! paths, and writing numbers and padded columns.

use vstd::prelude::*;
use vstd::string::*;
use vstd::utf8::*;

verus! {

/// What [`to_lowercase`] gives for a text: the result of `str::to_lowercase`.
pub uninterp spec fn lowercase(text: Seq<char>) -> Seq<char>;

/// Calls `str::to_lowercase`. The lowercase form is a function of the text
/// alone (the Unicode tables are compiled in), so it is given a name. Every
/// character has at least one in lower case, so that the form is empty exactly
/// if the text is; what else the name stands for is left to std.
#[verifier::external_body]
pub(crate) fn to_lowercase(text: &str) -> (lower: String)
    ensures
        lower@ == lowercase(text@),
        lower@.len() == 0 <==> text@.len() == 0,
{
    text.to_lowercase()
}

/// The text that a chain of UTF-8 bytes which is not valid is reported with:
/// the `Display` form of the `FromUtf8Error` that `String::from_utf8` returns.
pub uninterp spec fn utf8_error_text(bytes: Seq<u8>) -> Seq<char>;

/// Calls `String::from_utf8`. It succeeds exactly on valid UTF-8 and then gives
/// the text that those bytes encode; otherwise the error's `Display` form, a
/// function of the bytes alone, is handed back.
#[verifier::external_body]
pub(crate) fn text_from_utf8(bytes: Vec<u8>) -> (r: Result<String, String>)
    ensures
        r is Ok <==> valid_utf8(bytes@),
        r matches Ok(text) ==> encode_utf8(text@) == bytes@,
        r matches Err(message) ==> message@ == utf8_error_text(bytes@),
{
    String::from_utf8(bytes).map_err(|e| e.to_string())
}

/// The view of an optional text.
pub open spec fn opt_text(text: Option<String>) -> Option<Seq<char>> {
    match text {
        Some(t) => Some(t@),
        None => None,
    }
}

/// The characters of a text, one by one.
pub fn chars_of(text: &str) -> (chars: Vec<char>)
    ensures
        chars@ == text@,
{
    let mut chars: Vec<char> = Vec::new();
    for c in it: text.chars()
        invariant
            it.seq() == text@,
            chars@ == text@.take(it.index()),
    {
        chars.push(c);
    }
    assert(text@.take(text@.len() as int) == text@);
    chars
}

/// Whether `needle` occurs in `hay` at position `at`.
pub open spec fn occurs_at(hay: Seq<char>, needle: Seq<char>, at: int) -> bool {
    &&& 0 <= at
    &&& at + needle.len() <= hay.len()
    &&& hay.subrange(at, at + needle.len()) == needle
}

/// Whether `needle` occurs anywhere in `hay`.
pub open spec fn contains_text(hay: Seq<char>, needle: Seq<char>) -> bool {
    exists|at: int| occurs_at(hay, needle, at)
}

fn matches_at(hay: &Vec<char>, needle: &Vec<char>, at: usize) -> (found: bool)
    requires
        at + needle@.len() <= hay@.len(),
    ensures
        found == occurs_at(hay@, needle@, at as int),
{
    let len: usize = hay.len();
    let mut k: usize = 0;
    while k < needle.len()
        invariant
            len == hay@.len(),
            at + needle@.len() <= hay@.len(),
            k <= needle@.len(),
            forall|j: int| 0 <= j < k ==> hay@[at + j] == needle@[j],
        decreases needle@.len() - k,
    {
        if hay[at + k] != needle[k] {
            assert(hay@.subrange(at as int, at + needle@.len())[k as int] != needle@[k as int]);
            return false;
        }
        k = k + 1;
    }
    assert(hay@.subrange(at as int, at + needle@.len()) =~= needle@);
    true
}

/// Whether `needle` occurs in `hay` (every text holds the empty one).
pub fn contains(hay: &str, needle: &str) -> (found: bool)
    ensures
        found == contains_text(hay@, needle@),
{
    let hay_chars = chars_of(hay);
    let needle_chars = chars_of(needle);
    if needle_chars.len() > hay_chars.len() {
        return false;
    }
    let last: usize = hay_chars.len() - needle_chars.len();
    let mut at: usize = 0;
    loop
        invariant
            hay_chars@ == hay@,
            needle_chars@ == needle@,
            last == hay_chars@.len() - needle_chars@.len(),
            at <= last,
            forall|j: int| 0 <= j < at ==> !occurs_at(hay@, needle@, j),
        decreases last + 1 - at,
    {
        if matches_at(&hay_chars, &needle_chars, at) {
            return true;
        }
        if at == last {
            return false;
        }
        at = at + 1;
    }
}


/// Whether `text` begins with `prefix`.
pub fn starts_with(text: &str, prefix: &str) -> (found: bool)
    ensures
        found == occurs_at(text@, prefix@, 0),
{
    let text_chars = chars_of(text);
    let prefix_chars = chars_of(prefix);
    if prefix_chars.len() > text_chars.len() {
        return false;
    }
    matches_at(&text_chars, &prefix_chars, 0)
}

/// The position of the first `c` in `text`.
pub fn find_char(text: &str, c: char) -> (found: Option<usize>)
    ensures
        match found {
            Some(at) => {
                &&& at < text@.len()
                &&& text@[at as int] == c
                &&& forall|j: int| 0 <= j < at ==> text@[j] != c
            },
            None => forall|j: int| 0 <= j < text@.len() ==> text@[j] != c,
        },
{
    let chars = chars_of(text);
    let mut at: usize = 0;
    while at < chars.len()
        invariant
            chars@ == text@,
            at <= chars@.len(),
            forall|j: int| 0 <= j < at ==> text@[j] != c,
        decreases chars@.len() - at,
    {
        if chars[at] == c {
            return Some(at);
        }
        at = at + 1;
    }
    None
}

/// The characters of the Unicode property White_Space.
pub open spec fn is_white_space(c: char) -> bool {
    ||| '\u{9}' <= c <= '\u{d}'
    ||| c == '\u{20}'
    ||| c == '\u{85}'
    ||| c == '\u{a0}'
    ||| c == '\u{1680}'
    ||| '\u{2000}' <= c <= '\u{200a}'
    ||| c == '\u{2028}'
    ||| c == '\u{2029}'
    ||| c == '\u{202f}'
    ||| c == '\u{205f}'
    ||| c == '\u{3000}'
}

/// Whether `c` is white space.
pub fn white_space(c: char) -> (b: bool)
    ensures
        b == is_white_space(c),
{
    ('\u{9}' <= c && c <= '\u{d}') || c == '\u{20}' || c == '\u{85}' || c == '\u{a0}' || c
        == '\u{1680}' || ('\u{2000}' <= c && c <= '\u{200a}') || c == '\u{2028}' || c
        == '\u{2029}' || c == '\u{202f}' || c == '\u{205f}' || c == '\u{3000}'
}

/// `text` without the white space at its start.
pub open spec fn trimmed_start(text: Seq<char>) -> Seq<char>
    decreases text.len(),
{
    if text.len() > 0 && is_white_space(text[0]) {
        trimmed_start(text.drop_first())
    } else {
        text
    }
}

/// `text` without the white space at its end.
pub open spec fn trimmed_end(text: Seq<char>) -> Seq<char>
    decreases text.len(),
{
    if text.len() > 0 && is_white_space(text.last()) {
        trimmed_end(text.drop_last())
    } else {
        text
    }
}

/// `text` without the white space at either end.
pub open spec fn trimmed(text: Seq<char>) -> Seq<char> {
    trimmed_end(trimmed_start(text))
}

/// Takes the white space off both ends of `text`.
pub fn trim(text: &str) -> (r: String)
    ensures
        r@ == trimmed(text@),
{
    let chars = chars_of(text);
    let mut start: usize = 0;
    assert(text@.skip(0) == text@);
    while start < chars.len() && white_space(chars[start])
        invariant
            chars@ == text@,
            start <= chars@.len(),
            trimmed_start(text@) == trimmed_start(text@.skip(start as int)),
        decreases chars@.len() - start,
    {
        assert(text@.skip(start as int).drop_first() == text@.skip(start + 1));
        start = start + 1;
    }
    let mut end: usize = chars.len();
    assert(text@.subrange(start as int, end as int) == text@.skip(start as int));
    while start < end && white_space(chars[end - 1])
        invariant
            chars@ == text@,
            start <= end <= chars@.len(),
            trimmed(text@) == trimmed_end(text@.subrange(start as int, end as int)),
        decreases end - start,
    {
        assert(text@.subrange(start as int, end as int).drop_last() == text@.subrange(
            start as int,
            end - 1,
        ));
        end = end - 1;
    }
    text.substring_char(start, end).to_owned()
}

/// The decimal digit of a number below ten.
pub open spec fn digit_char(d: nat) -> char {
    ('0' as u32 + d) as char
}

/// A natural number in decimal, without leading zeros.
pub open spec fn decimal(n: nat) -> Seq<char>
    decreases n,
{
    if n < 10 {
        seq![digit_char(n)]
    } else {
        decimal(n / 10).push(digit_char(n % 10))
    }
}

/// An integer in decimal, with `-` in front of a negative one.
pub open spec fn decimal_int(n: int) -> Seq<char> {
    if n < 0 {
        seq!['-'] + decimal((-n) as nat)
    } else {
        decimal(n as nat)
    }
}

fn digit_str(d: u128) -> (s: &'static str)
    requires
        d < 10,
    ensures
        s@ == seq![digit_char(d as nat)],
{
    proof {
        reveal_strlit("0");
        reveal_strlit("1");
        reveal_strlit("2");
        reveal_strlit("3");
        reveal_strlit("4");
        reveal_strlit("5");
        reveal_strlit("6");
        reveal_strlit("7");
        reveal_strlit("8");
        reveal_strlit("9");
    }
    let s: &'static str = if d == 0 {
        "0"
    } else if d == 1 {
        "1"
    } else if d == 2 {
        "2"
    } else if d == 3 {
        "3"
    } else if d == 4 {
        "4"
    } else if d == 5 {
        "5"
    } else if d == 6 {
        "6"
    } else if d == 7 {
        "7"
    } else if d == 8 {
        "8"
    } else {
        "9"
    };
    assert(s@ =~= seq![digit_char(d as nat)]);
    s
}

/// Writes `n` in decimal behind `out`.
pub fn append_decimal(out: &mut String, n: u128)
    ensures
        final(out)@ == old(out)@ + decimal(n as nat),
    decreases n,
{
    if n >= 10 {
        append_decimal(out, n / 10);
    }
    out.append(digit_str(n % 10));
    assert(out@ =~= old(out)@ + decimal(n as nat));
}

/// Writes `n` in decimal behind `out`, with its sign if it is negative.
pub fn append_signed(out: &mut String, n: i64)
    ensures
        final(out)@ == old(out)@ + decimal_int(n as int),
{
    if n < 0 {
        proof {
            reveal_strlit("-");
        }
        out.append("-");
        let ghost before = old(out)@;
        assert(out@ =~= before + seq!['-']);
        let magnitude: u128 = (-(n as i128)) as u128;
        append_decimal(out, magnitude);
        assert(out@ =~= before + decimal_int(n as int));
    } else {
        append_decimal(out, n as u128);
    }
}

/// `n` copies of one text, one behind the other.
pub open spec fn repeated(text: Seq<char>, n: nat) -> Seq<char>
    decreases n,
{
    if n == 0 {
        seq![]
    } else {
        repeated(text, (n - 1) as nat) + text
    }
}

/// Writes `n` copies of `text` behind `out`.
pub fn append_repeated(out: &mut String, text: &str, n: usize)
    ensures
        final(out)@ == old(out)@ + repeated(text@, n as nat),
{
    let ghost before = out@;
    let mut i: usize = 0;
    assert(out@ =~= before + repeated(text@, 0));
    while i < n
        invariant
            i <= n,
            out@ == before + repeated(text@, i as nat),
        decreases n - i,
    {
        out.append(text);
        i = i + 1;
        assert(out@ =~= before + repeated(text@, i as nat));
    }
}

/// `text` filled up with blanks on the right until it has `width` characters.
/// A text that is longer stays as it is.
pub open spec fn padded(text: Seq<char>, width: nat) -> Seq<char> {
    if text.len() < width {
        text + repeated(" "@, (width - text.len()) as nat)
    } else {
        text
    }
}

/// Writes `text` behind `out`, filled up to `width` characters.
pub fn append_padded(out: &mut String, text: &str, width: usize)
    ensures
        final(out)@ == old(out)@ + padded(text@, width as nat),
{
    let ghost before = out@;
    out.append(text);
    let len: usize = text.unicode_len();
    if len < width {
        append_repeated(out, " ", width - len);
        assert(out@ =~= before + padded(text@, width as nat));
    }
}

/// The number of bytes that a text takes up in UTF-8.
pub open spec fn byte_len(text: Seq<char>) -> usize {
    encode_utf8(text).len() as usize
}

/// Whether `a` comes before or at the same place as `b` in the order of their
/// characters' code points.
pub open spec fn text_le(a: Seq<char>, b: Seq<char>) -> bool
    decreases a.len(),
{
    if a.len() == 0 {
        true
    } else if b.len() == 0 {
        false
    } else if a[0] == b[0] {
        text_le(a.drop_first(), b.drop_first())
    } else {
        a[0] < b[0]
    }
}

/// Whether `a` comes before or at the same place as `b`.
pub fn is_text_le(a: &str, b: &str) -> (r: bool)
    ensures
        r == text_le(a@, b@),
{
    let left = chars_of(a);
    let right = chars_of(b);
    let mut i: usize = 0;
    assert(a@.skip(0) == a@ && b@.skip(0) == b@);
    while i < left.len() && i < right.len() && left[i] == right[i]
        invariant
            left@ == a@,
            right@ == b@,
            i <= a@.len(),
            i <= b@.len(),
            text_le(a@, b@) == text_le(a@.skip(i as int), b@.skip(i as int)),
        decreases a@.len() - i,
    {
        assert(a@.skip(i as int).drop_first() == a@.skip(i + 1));
        assert(b@.skip(i as int).drop_first() == b@.skip(i + 1));
        i = i + 1;
    }
    if i >= left.len() {
        true
    } else if i >= right.len() {
        false
    } else {
        left[i] < right[i]
    }
}

/// A failure in words: what failed, a colon, and the reason.
pub open spec fn failure(what: Seq<char>, reason: Seq<char>) -> Seq<char> {
    what + ": "@ + reason
}

/// Puts a failure into words.
pub fn describe_failure(what: &str, reason: &str) -> (message: String)
    ensures
        message@ == failure(what@, reason@),
{
    let mut message = what.to_owned();
    message.append(": ");
    message.append(reason);
    message
}

/// Two paths one behind the other, with a `/` between them unless the first is
/// empty or ends in one. `name` stands for a relative path.
pub open spec fn joined_path(base: Seq<char>, name: Seq<char>) -> Seq<char> {
    if base.len() == 0 || base.last() == '/' {
        base + name
    } else {
        base + "/"@ + name
    }
}

/// Puts the relative path `name` behind `base`.
pub fn join_path(base: &str, name: &str) -> (path: String)
    ensures
        path@ == joined_path(base@, name@),
{
    let mut path = base.to_owned();
    let len: usize = base.unicode_len();
    if len > 0 && base.get_char(len - 1) != '/' {
        path.append("/");
    }
    path.append(name);
    path
}

/// A text is found wherever it stands between two others, and only there.
pub proof fn law_contained_text_stands_between(
    hay: Seq<char>,
    needle: Seq<char>,
    before: Seq<char>,
    behind: Seq<char>,
)
    ensures
        contains_text(before + needle + behind, needle),
        contains_text(hay, needle) ==> exists|a: Seq<char>, b: Seq<char>|
            hay == #[trigger] (a + needle + b),
{
    let whole = before + needle + behind;
    let at = before.len() as int;
    assert(whole.subrange(at, at + needle.len()) =~= needle);
    assert(occurs_at(whole, needle, at));
    if contains_text(hay, needle) {
        let at = choose|at: int| occurs_at(hay, needle, at);
        let a = hay.take(at);
        let b = hay.skip(at + needle.len());
        assert(hay =~= a + hay.subrange(at, at + needle.len()) + b);
        assert(hay == a + needle + b);
    }
}

/// A text begins with another exactly if it is that text with something behind
/// it.
pub proof fn law_beginning(text: Seq<char>, prefix: Seq<char>, behind: Seq<char>)
    ensures
        occurs_at(prefix + behind, prefix, 0),
        occurs_at(text, prefix, 0) ==> text == prefix + text.skip(prefix.len() as int),
{
    assert((prefix + behind).subrange(0, prefix.len() as int) =~= prefix);
    if occurs_at(text, prefix, 0) {
        assert(text =~= text.subrange(0, prefix.len() as int) + text.skip(prefix.len() as int));
    }
}

/// Whether a text is nothing but white space.
pub open spec fn is_blank(text: Seq<char>) -> bool {
    forall|i: int| 0 <= i < text.len() ==> is_white_space(#[trigger] text[i])
}

/// Trimming takes away all white space before and behind a text and nothing
/// else.
pub proof fn law_trimming_takes_the_space_around(
    before: Seq<char>,
    text: Seq<char>,
    behind: Seq<char>,
)
    requires
        is_blank(before),
        is_blank(behind),
        text.len() > 0 ==> !is_white_space(text[0]) && !is_white_space(text.last()),
    ensures
        trimmed(before + text + behind) == text,
{
    lemma_trimmed_start(before, text + behind);
    assert(before + text + behind =~= before + (text + behind));
    if text.len() > 0 {
        assert((text + behind)[0] == text[0]);
        assert(trimmed_start(text + behind) == text + behind);
        lemma_trimmed_end(text, behind);
    } else {
        assert(text + behind =~= behind + Seq::<char>::empty());
        lemma_trimmed_start(behind, Seq::<char>::empty());
        assert(trimmed_start(Seq::<char>::empty()) =~= Seq::<char>::empty());
        assert(trimmed_end(Seq::<char>::empty()) =~= text);
    }
}

proof fn lemma_trimmed_start(before: Seq<char>, rest: Seq<char>)
    requires
        is_blank(before),
    ensures
        trimmed_start(before + rest) == trimmed_start(rest),
    decreases before.len(),
{
    if before.len() == 0 {
        assert(before + rest =~= rest);
    } else {
        assert(is_white_space(before[0]));
        assert((before + rest)[0] == before[0]);
        assert((before + rest).drop_first() =~= before.drop_first() + rest);
        assert forall|i: int| 0 <= i < before.drop_first().len() implies is_white_space(
            #[trigger] before.drop_first()[i],
        ) by {
            assert(before.drop_first()[i] == before[i + 1]);
        }
        lemma_trimmed_start(before.drop_first(), rest);
    }
}

proof fn lemma_trimmed_end(text: Seq<char>, behind: Seq<char>)
    requires
        is_blank(behind),
        text.len() > 0,
        !is_white_space(text.last()),
    ensures
        trimmed_end(text + behind) == text,
    decreases behind.len(),
{
    if behind.len() == 0 {
        assert(text + behind =~= text);
    } else {
        assert(is_white_space(behind[behind.len() - 1]));
        assert((text + behind).last() == behind.last());
        assert((text + behind).drop_last() =~= text + behind.drop_last());
        lemma_trimmed_end(text, behind.drop_last());
    }
}

/// The number that a text of digits stands for.
pub open spec fn number_of(digits: Seq<char>) -> int
    decreases digits.len(),
{
    if digits.len() == 0 {
        0
    } else {
        10 * number_of(digits.drop_last()) + (digits.last() as int - '0' as int)
    }
}

/// What is written for a number are digits that stand for it, without a zero in
/// front of others.
pub proof fn law_decimal_stands_for_number(n: nat)
    ensures
        number_of(decimal(n)) == n,
        decimal(n).len() > 0,
        forall|i: int| 0 <= i < decimal(n).len() ==> '0' <= #[trigger] decimal(n)[i] <= '9',
        decimal(n)[0] == '0' ==> n == 0,
    decreases n,
{
    reveal_with_fuel(number_of, 2);
    if n >= 10 {
        law_decimal_stands_for_number(n / 10);
        assert(decimal(n).drop_last() =~= decimal(n / 10));
        assert(decimal(n)[0] == decimal(n / 10)[0]);
    } else {
        assert(decimal(n).drop_last() =~= Seq::<char>::empty());
    }
}

/// What is written for a negative number is a minus with the digits behind it.
pub proof fn law_signed_decimal_stands_for_number(n: int)
    ensures
        n >= 0 ==> number_of(decimal_int(n)) == n && decimal_int(n)[0] != '-',
        n < 0 ==> decimal_int(n)[0] == '-' && number_of(decimal_int(n).drop_first()) == -n,
{
    if n < 0 {
        law_decimal_stands_for_number((-n) as nat);
        assert(decimal_int(n).drop_first() =~= decimal((-n) as nat));
    } else {
        law_decimal_stands_for_number(n as nat);
        assert('0' <= decimal(n as nat)[0]);
    }
}

/// Of two texts that differ, the one comes first that has the lesser character
/// where they first do, and a text comes before one that goes on behind it.
pub proof fn law_texts_are_ordered_by_first_difference(
    common: Seq<char>,
    less: char,
    greater: char,
    a: Seq<char>,
    b: Seq<char>,
)
    requires
        less < greater,
    ensures
        text_le(common + seq![less] + a, common + seq![greater] + b),
        !text_le(common + seq![greater] + b, common + seq![less] + a),
        text_le(common, common + a),
        a.len() > 0 ==> !text_le(common + a, common),
    decreases common.len(),
{
    let x = common + seq![less] + a;
    let y = common + seq![greater] + b;
    if common.len() == 0 {
        assert(x[0] == less);
        assert(y[0] == greater);
    } else {
        let rest = common.drop_first();
        law_texts_are_ordered_by_first_difference(rest, less, greater, a, b);
        assert(x.drop_first() =~= rest + seq![less] + a);
        assert(y.drop_first() =~= rest + seq![greater] + b);
        assert((common + a).drop_first() =~= rest + a);
    }
}

/// A text that is padded keeps its characters, is at least as long as asked, and
/// has nothing but blanks behind it, none if it was long enough.
pub proof fn law_padding_adds_blanks_behind(text: Seq<char>, width: nat)
    ensures
        padded(text, width).len() == if text.len() < width {
            width
        } else {
            text.len()
        },
        padded(text, width).take(text.len() as int) == text,
        forall|i: int|
            text.len() <= i < padded(text, width).len() ==> #[trigger] padded(text, width)[i]
                == ' ',
{
    reveal_strlit(" ");
    if text.len() < width {
        assert(" "@ =~= seq![' ']);
        lemma_repeated_char(" "@, ' ', (width - text.len()) as nat);
    }
    assert(padded(text, width).take(text.len() as int) =~= text);
}

proof fn lemma_repeated_char(text: Seq<char>, c: char, n: nat)
    requires
        text == seq![c],
    ensures
        repeated(text, n).len() == n,
        forall|i: int| 0 <= i < n ==> #[trigger] repeated(text, n)[i] == c,
    decreases n,
{
    if n > 0 {
        lemma_repeated_char(text, c, (n - 1) as nat);
    }
}

/// A path that is joined begins with the first and ends with the second, and there
/// is a slash before the second unless the first is empty; never one too many.
pub proof fn law_joined_path_has_one_slash(base: Seq<char>, name: Seq<char>)
    requires
        base.len() > 0,
    ensures
        joined_path(seq![], name) == name,
        joined_path(base, name).take(base.len() as int) == base,
        base.last() == '/' ==> joined_path(base, name) == base + name,
        base.last() != '/' ==> joined_path(base, name) == base + seq!['/'] + name,
{
    reveal_strlit("/");
    assert(joined_path(seq![], name) =~= name);
    assert("/"@ =~= seq!['/']);
    assert(joined_path(base, name).take(base.len() as int) =~= base);
}

/// White space are the blank, the tab and the controls up to the carriage return,
/// and what Unicode lists besides: the next line, the separators of lines and
/// paragraphs, and the spaces that are wider or narrower than a blank or do not
/// break.
pub proof fn law_white_space_by_code_point(c: char)
    ensures
        is_white_space(c) <==> {
            let code = c as u32;
            ||| 9 <= code <= 13
            ||| code == 32 || code == 133 || code == 160 || code == 5760
            ||| 8192 <= code <= 8202
            ||| code == 8232 || code == 8233 || code == 8239 || code == 8287 || code == 12288
        },
{
}

/// A failure is told with what failed in front, the reason at the end, and a colon
/// and a blank between them.
pub proof fn law_failure_gives_its_reason(what: Seq<char>, reason: Seq<char>)
    ensures
        failure(what, reason) == what + seq![':', ' '] + reason,
{
    reveal_strlit(": ");
    assert(": "@ =~= seq![':', ' ']);
}

/// A character that is repeated stands as often as it was asked for, and with
/// nothing else.
pub proof fn law_repeated_character_fills_its_width(text: Seq<char>, n: nat)
    requires
        text.len() == 1,
    ensures
        repeated(text, n).len() == n,
        forall|i: int| 0 <= i < n ==> #[trigger] repeated(text, n)[i] == text[0],
{
    assert(text =~= seq![text[0]]);
    lemma_repeated_char(text, text[0], n);
}

} // verus!
