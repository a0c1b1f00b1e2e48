//! The texts that the backup reads and writes. The first line of the
//! configuration names the directory to copy, the lines after it list the
//! file extensions to copy, separated by whitespace or commas.
use vstd::prelude::*;

verus! {

/// `String::push` appends one character to the string.
pub assume_specification[ String::push ](s: &mut String, c: char)
    ensures
        final(s)@ == old(s)@.push(c),
;

/// The characters with the Unicode property `White_Space`.
pub open spec fn spec_is_whitespace(c: char) -> bool {
    let n = c as u32;
    (0x09 <= n <= 0x0D) || n == 0x20 || n == 0x85 || n == 0xA0 || n == 0x1680 || (0x2000 <= n
        <= 0x200A) || n == 0x2028 || n == 0x2029 || n == 0x202F || n == 0x205F || n == 0x3000
}

/// What separates two extensions: whitespace or a comma.
pub open spec fn spec_is_separator(c: char) -> bool {
    spec_is_whitespace(c) || c == ','
}

/// The index of the first occurrence of `c` in `s`, or the length of `s` if
/// there is none.
pub open spec fn first_index_of(s: Seq<char>, c: char) -> int
    decreases s.len(),
{
    if s.len() == 0 || s[0] == c {
        0
    } else {
        1 + first_index_of(s.drop_first(), c)
    }
}

/// `s` without the whitespace at its end.
pub open spec fn trim_end(s: Seq<char>) -> Seq<char>
    decreases s.len(),
{
    if s.len() > 0 && spec_is_whitespace(s.last()) {
        trim_end(s.drop_last())
    } else {
        s
    }
}

/// The first line of the text, without its line break.
pub open spec fn first_line(text: Seq<char>) -> Seq<char> {
    text.take(first_index_of(text, '\n'))
}

/// The text after the first line break; empty if there is none.
pub open spec fn after_first_line(text: Seq<char>) -> Seq<char> {
    if first_index_of(text, '\n') < text.len() {
        text.skip(first_index_of(text, '\n') + 1)
    } else {
        Seq::empty()
    }
}

/// The number of characters at the beginning of `s` before the first
/// separator.
pub open spec fn word_length(s: Seq<char>) -> int
    decreases s.len(),
{
    if s.len() == 0 || spec_is_separator(s[0]) {
        0
    } else {
        1 + word_length(s.drop_first())
    }
}

/// The words of `s`: its longest stretches without a separator, in order.
pub open spec fn words(s: Seq<char>) -> Seq<Seq<char>>
    decreases s.len(),
    via words_decreases
{
    if s.len() == 0 {
        Seq::empty()
    } else if spec_is_separator(s[0]) {
        words(s.drop_first())
    } else {
        seq![s.take(word_length(s))] + words(s.skip(word_length(s)))
    }
}

#[via_fn]
proof fn words_decreases(s: Seq<char>) {
    lemma_word_length_bounds(s);
}

/// The source directory that a configuration text names: its first line
/// without the whitespace at its end, if anything is left of it.
pub open spec fn spec_get_src_path(text: Seq<char>) -> Option<Seq<char>> {
    let line = trim_end(first_line(text));
    if line.len() == 0 {
        None
    } else {
        Some(line)
    }
}

/// The extensions that a configuration text lists: the words after its first
/// line.
pub open spec fn spec_get_extensions(text: Seq<char>) -> Seq<Seq<char>> {
    words(after_first_line(text))
}

/// The strings of `parts` in a row, with `separator` between each two.
pub open spec fn join(parts: Seq<Seq<char>>, separator: char) -> Seq<char>
    decreases parts.len(),
{
    if parts.len() == 0 {
        Seq::empty()
    } else if parts.len() == 1 {
        parts[0]
    } else {
        join(parts.drop_last(), separator).push(separator) + parts.last()
    }
}

/// The configuration that names what to copy, from where and to where: a
/// heading, then one line with the extensions to copy, or `F` for every file,
/// the source and the destination, with semicolons between them.
pub open spec fn spec_configuration_text(
    file_formats: Seq<char>,
    source: Seq<char>,
    destination: Seq<char>,
) -> Seq<char> {
    "type;source;destination\n"@ + (if file_formats.len() == 0 {
        seq!['F']
    } else {
        file_formats
    }).push(';') + source.push(';') + destination.push('\n')
}

/// The decimal digit for a number below ten.
pub open spec fn spec_digit(d: nat) -> char {
    if d == 0 {
        '0'
    } else if d == 1 {
        '1'
    } else if d == 2 {
        '2'
    } else if d == 3 {
        '3'
    } else if d == 4 {
        '4'
    } else if d == 5 {
        '5'
    } else if d == 6 {
        '6'
    } else if d == 7 {
        '7'
    } else if d == 8 {
        '8'
    } else {
        '9'
    }
}

/// A number written in decimal digits, without leading zeros.
pub open spec fn spec_decimal(n: nat) -> Seq<char>
    decreases n,
{
    if n < 10 {
        seq![spec_digit(n)]
    } else {
        spec_decimal(n / 10).push(spec_digit(n % 10))
    }
}

/// The character sequences that a vector of strings holds.
pub open spec fn texts(strings: Seq<String>) -> Seq<Seq<char>> {
    strings.map_values(|s: String| s@)
}

/// The first occurrence stands within the sequence or right after it, and
/// the character does not occur before it.
pub proof fn lemma_first_index_of(s: Seq<char>, c: char)
    ensures
        0 <= first_index_of(s, c) <= s.len(),
        first_index_of(s, c) < s.len() ==> s[first_index_of(s, c)] == c,
        forall|i: int| 0 <= i < first_index_of(s, c) ==> s[i] != c,
    decreases s.len(),
{
    if s.len() == 0 || s[0] == c {
    } else {
        lemma_first_index_of(s.drop_first(), c);
        assert forall|i: int| 0 <= i < first_index_of(s, c) implies s[i] != c by {
            if i > 0 {
                assert(s[i] == s.drop_first()[i - 1]);
            }
        }
    }
}

/// The first index at which `c` stands is the index of its first occurrence.
pub proof fn lemma_first_index_is(s: Seq<char>, c: char, n: int)
    requires
        0 <= n <= s.len(),
        n < s.len() ==> s[n] == c,
        forall|i: int| 0 <= i < n ==> s[i] != c,
    ensures
        first_index_of(s, c) == n,
{
    lemma_first_index_of(s, c);
}

/// Where only whitespace follows the index `n`, and none stands just before
/// it, trimming leaves the first `n` characters.
pub proof fn lemma_trim_end_is(s: Seq<char>, n: int)
    requires
        0 <= n <= s.len(),
        n > 0 ==> !spec_is_whitespace(s[n - 1]),
        forall|i: int| n <= i < s.len() ==> spec_is_whitespace(s[i]),
    ensures
        trim_end(s) == s.take(n),
    decreases s.len() - n,
{
    if n < s.len() {
        lemma_trim_end_is(s.drop_last(), n);
    }
}

/// Where no separator stands before the index `n`, and one stands at it or
/// the sequence ends there, the first word has length `n`.
pub proof fn lemma_word_length_is(s: Seq<char>, n: int)
    requires
        0 <= n <= s.len(),
        n < s.len() ==> spec_is_separator(s[n]),
        forall|i: int| 0 <= i < n ==> !spec_is_separator(s[i]),
    ensures
        word_length(s) == n,
    decreases n,
{
    if n > 0 {
        lemma_word_length_is(s.drop_first(), n - 1);
    }
}

/// A word holds at least one character and no separator.
pub proof fn lemma_words_hold_no_separator(s: Seq<char>)
    ensures
        forall|k: int, i: int|
            0 <= k < words(s).len() && 0 <= i < words(s)[k].len() ==> !spec_is_separator(
                #[trigger] words(s)[k][i],
            ),
        forall|k: int| 0 <= k < words(s).len() ==> (#[trigger] words(s)[k]).len() > 0,
    decreases s.len(),
{
    if s.len() == 0 {
    } else if spec_is_separator(s[0]) {
        lemma_words_hold_no_separator(s.drop_first());
        assert(words(s) == words(s.drop_first()));
    } else {
        let n = word_length(s);
        lemma_word_length_bounds(s);
        lemma_words_hold_no_separator(s.skip(n));
        let head = s.take(n);
        let tail = words(s.skip(n));
        assert forall|k: int, i: int|
            0 <= k < words(s).len() && 0 <= i < words(s)[k].len() implies !spec_is_separator(
            #[trigger] words(s)[k][i],
        ) by {
            if k == 0 {
                assert(head[i] == s[i]);
            } else {
                assert(words(s)[k] == tail[k - 1]);
            }
        }
        assert forall|k: int| 0 <= k < words(s).len() implies (#[trigger] words(s)[k]).len()
            > 0 by {
            if k > 0 {
                assert(words(s)[k] == tail[k - 1]);
            }
        }
    }
}

/// The first word ends within the sequence, before the first separator.
pub proof fn lemma_word_length_bounds(s: Seq<char>)
    ensures
        0 <= word_length(s) <= s.len(),
        forall|i: int| 0 <= i < word_length(s) ==> !spec_is_separator(s[i]),
        s.len() > 0 && !spec_is_separator(s[0]) ==> word_length(s) > 0,
    decreases s.len(),
{
    if s.len() == 0 || spec_is_separator(s[0]) {
    } else {
        let t = s.drop_first();
        lemma_word_length_bounds(t);
        assert forall|i: int| 0 <= i < word_length(s) implies !spec_is_separator(s[i]) by {
            if i > 0 {
                assert(s[i] == t[i - 1]);
            }
        }
    }
}

/// Whether the character has the Unicode property `White_Space`.
pub fn is_whitespace(c: char) -> (whitespace: bool)
    ensures
        whitespace == spec_is_whitespace(c),
{
    let n: u32 = c as u32;
    (0x09 <= n && n <= 0x0D) || n == 0x20 || n == 0x85 || n == 0xA0 || n == 0x1680 || (0x2000 <= n
        && n <= 0x200A) || n == 0x2028 || n == 0x2029 || n == 0x202F || n == 0x205F || n == 0x3000
}

/// Whether the character separates two extensions.
pub fn is_separator(c: char) -> (separator: bool)
    ensures
        separator == spec_is_separator(c),
{
    is_whitespace(c) || c == ','
}

/// The characters of a string.
pub fn to_chars(s: &str) -> (chars: Vec<char>)
    ensures
        chars@ == s@,
{
    let mut chars: Vec<char> = Vec::new();
    for c in it: s.chars()
        invariant
            chars@ == s@.take(it.index()),
            it.seq() == s@,
    {
        chars.push(c);
    }
    chars
}

/// The string made of the characters from index `from` up to index `to`.
pub fn from_chars(chars: &Vec<char>, from: usize, to: usize) -> (s: String)
    requires
        from <= to <= chars.len(),
    ensures
        s@ == chars@.subrange(from as int, to as int),
{
    let mut s = String::new();
    let mut i: usize = from;
    while i < to
        invariant
            from <= i <= to <= chars.len(),
            s@ == chars@.subrange(from as int, i as int),
        decreases to - i,
    {
        s.push(chars[i]);
        i += 1;
    }
    s
}

/// The index of the first line break in `chars`, or their number if there is
/// none.
fn line_end(chars: &Vec<char>) -> (n: usize)
    ensures
        n == first_index_of(chars@, '\n'),
        n <= chars.len(),
{
    let mut n: usize = 0;
    while n < chars.len() && chars[n] != '\n'
        invariant
            n <= chars.len(),
            forall|i: int| 0 <= i < n ==> chars[i] != '\n',
        decreases chars.len() - n,
    {
        n += 1;
    }
    proof {
        lemma_first_index_is(chars@, '\n', n as int);
    }
    n
}

/// Reads the source directory from a configuration text: the first line
/// without the whitespace at its end. `None` if nothing but whitespace stands
/// on the first line.
pub fn get_src_path(text: &str) -> (source: Option<String>)
    ensures
        source is Some <==> spec_get_src_path(text@) is Some,
        source matches Some(path) ==> Some(path@) == spec_get_src_path(text@),
{
    let chars = to_chars(text);
    let n: usize = line_end(&chars);
    let mut end: usize = n;
    while end > 0 && is_whitespace(chars[end - 1])
        invariant
            end <= n <= chars.len(),
            forall|i: int| end <= i < n ==> spec_is_whitespace(chars[i]),
        decreases end,
    {
        end -= 1;
    }
    proof {
        lemma_trim_end_is(first_line(text@), end as int);
    }
    if end == 0 {
        None
    } else {
        Some(from_chars(&chars, 0, end))
    }
}

/// The words that stand in `chars` from the index `from` on.
fn collect_words(chars: &Vec<char>, from: usize) -> (found: Vec<String>)
    requires
        from <= chars.len(),
    ensures
        texts(found@) == words(chars@.skip(from as int)),
{
    let mut found: Vec<String> = Vec::new();
    let mut i: usize = from;
    while i < chars.len()
        invariant
            from <= i <= chars.len(),
            texts(found@) + words(chars@.skip(i as int)) == words(chars@.skip(from as int)),
        decreases chars.len() - i,
    {
        let ghost rest = chars@.skip(i as int);
        if is_separator(chars[i]) {
            assert(rest.drop_first() == chars@.skip(i + 1));
            i += 1;
        } else {
            let mut j: usize = i + 1;
            while j < chars.len() && !is_separator(chars[j])
                invariant
                    i < j <= chars.len(),
                    forall|k: int| i <= k < j ==> !spec_is_separator(chars[k]),
                decreases chars.len() - j,
            {
                j += 1;
            }
            let word = from_chars(chars, i, j);
            proof {
                lemma_word_length_is(rest, j - i);
                assert(rest.take(j - i) == chars@.subrange(i as int, j as int));
                assert(rest.skip(j - i) == chars@.skip(j as int));
            }
            found.push(word);
            i = j;
        }
    }
    found
}

/// Reads a list of extensions: its words, in order. Whitespace and commas
/// separate them.
pub fn parse_extensions(list: &str) -> (extensions: Vec<String>)
    ensures
        texts(extensions@) == words(list@),
{
    let chars = to_chars(list);
    assert(chars@.skip(0) == chars@);
    collect_words(&chars, 0)
}

/// Reads the extensions from a configuration text: the words after its first
/// line, in order. Whitespace and commas separate them.
pub fn get_extensions(text: &str) -> (extensions: Vec<String>)
    ensures
        texts(extensions@) == spec_get_extensions(text@),
{
    let chars = to_chars(text);
    let n: usize = line_end(&chars);
    if n == chars.len() {
        collect_words(&chars, n)
    } else {
        collect_words(&chars, n + 1)
    }
}

/// Writes the extensions in a row, with a comma between each two.
pub fn convert_file_formats(file_formats: &Vec<String>) -> (formats: String)
    ensures
        formats@ == join(texts(file_formats@), ','),
{
    let mut formats = String::new();
    let mut i: usize = 0;
    while i < file_formats.len()
        invariant
            i <= file_formats.len(),
            formats@ == join(texts(file_formats@).take(i as int), ','),
        decreases file_formats.len() - i,
    {
        assert(texts(file_formats@).take(i + 1).drop_last() == texts(file_formats@).take(
            i as int,
        ));
        if i != 0 {
            formats.push(',');
        }
        formats.append(file_formats[i].as_str());
        i += 1;
    }
    assert(texts(file_formats@).take(i as int) == texts(file_formats@));
    formats
}

/// Writes the configuration that names what to copy, from where and to
/// where. No extensions stand for every file.
pub fn configuration_text(file_formats: &str, source: &str, destination: &str) -> (text: String)
    ensures
        text@ == spec_configuration_text(file_formats@, source@, destination@),
{
    let mut text = "type;source;destination\n".to_owned();
    if file_formats.is_empty() {
        text.push('F');
    } else {
        text.append(file_formats);
    }
    text.push(';');
    text.append(source);
    text.push(';');
    text.append(destination);
    text.push('\n');
    text
}

/// The decimal digit for a number below ten.
fn digit(d: u64) -> (c: char)
    requires
        d < 10,
    ensures
        c == spec_digit(d as nat),
{
    if d == 0 {
        '0'
    } else if d == 1 {
        '1'
    } else if d == 2 {
        '2'
    } else if d == 3 {
        '3'
    } else if d == 4 {
        '4'
    } else if d == 5 {
        '5'
    } else if d == 6 {
        '6'
    } else if d == 7 {
        '7'
    } else if d == 8 {
        '8'
    } else {
        '9'
    }
}

/// Writes a number in decimal digits, without leading zeros.
pub fn decimal(n: u64) -> (digits: String)
    ensures
        digits@ == spec_decimal(n as nat),
{
    let mut low: Vec<char> = Vec::new();
    let mut rest: u64 = n;
    while rest >= 10
        invariant
            spec_decimal(n as nat) == spec_decimal(rest as nat) + low@.reverse(),
        decreases rest,
    {
        low.push(digit(rest % 10));
        rest = rest / 10;
    }
    let mut digits = String::new();
    digits.push(digit(rest));
    let mut i: usize = low.len();
    while i > 0
        invariant
            i <= low.len(),
            digits@ == seq![spec_digit(rest as nat)] + low@.reverse().take(low.len() - i),
        decreases i,
    {
        i -= 1;
        digits.push(low[i]);
    }
    digits
}

} // verus!
