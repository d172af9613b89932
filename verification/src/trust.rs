use crate::text::{chars_of, push_char};
use vstd::string::StringExecFns;
use vstd::prelude::*;

verus! {

/// Whether `c` is white space: a character that separates the fields of an
/// entry.
pub open spec fn is_space(c: char) -> bool {
    let n = c as u32;
    (0x09 <= n <= 0x0d) || n == 0x20 || n == 0x85 || n == 0xa0 || n == 0x1680 || (0x2000 <= n
        <= 0x200a) || n == 0x2028 || n == 0x2029 || n == 0x202f || n == 0x205f || n == 0x3000
}

/// Whether `c` is white space.
pub fn char_is_space(c: char) -> (space: bool)
    ensures
        space == is_space(c),
{
    let n = c as u32;
    (0x09 <= n && n <= 0x0d) || n == 0x20 || n == 0x85 || n == 0xa0 || n == 0x1680 || (0x2000 <= n
        && n <= 0x200a) || n == 0x2028 || n == 0x2029 || n == 0x202f || n == 0x205f || n == 0x3000
}

/// The first place at or after `from` that holds no white space; the length
/// of `s` where there is none.
pub open spec fn word_start(s: Seq<char>, from: int) -> int
    decreases s.len() - from,
{
    if from < 0 || from >= s.len() {
        s.len() as int
    } else if !is_space(s[from]) {
        from
    } else {
        word_start(s, from + 1)
    }
}

/// The first place at or after `from` that holds white space; the length of
/// `s` where there is none.
pub open spec fn word_end(s: Seq<char>, from: int) -> int
    decreases s.len() - from,
{
    if from < 0 || from >= s.len() {
        s.len() as int
    } else if is_space(s[from]) {
        from
    } else {
        word_end(s, from + 1)
    }
}

/// The first line feed at or after `from`; the length of `s` where there is
/// none.
pub open spec fn line_end(s: Seq<char>, from: int) -> int
    decreases s.len() - from,
{
    if from < 0 || from >= s.len() {
        s.len() as int
    } else if s[from] == '\n' {
        from
    } else {
        line_end(s, from + 1)
    }
}

/// Where a word starts and ends, relative to where the search began.
pub proof fn lemma_word_bounds(s: Seq<char>, from: int)
    requires
        0 <= from <= s.len(),
    ensures
        from <= word_start(s, from) <= s.len(),
        from <= word_end(s, from) <= s.len(),
        from <= line_end(s, from) <= s.len(),
        from < s.len() && !is_space(s[from]) ==> word_end(s, from) > from,
        forall|i: int| from <= i < word_start(s, from) ==> is_space(s[i]),
        forall|i: int| from <= i < word_end(s, from) ==> !is_space(s[i]),
        forall|i: int| from <= i < line_end(s, from) ==> s[i] != '\n',
        word_start(s, from) < s.len() ==> !is_space(s[word_start(s, from)]),
        word_end(s, from) < s.len() ==> is_space(s[word_end(s, from)]),
        line_end(s, from) < s.len() ==> s[line_end(s, from)] == '\n',
    decreases s.len() - from,
{
    if from < s.len() {
        lemma_word_bounds(s, from + 1);
    }
}

/// The fields of `s` from `from` on: the runs of characters that are not
/// white space, in order.
pub open spec fn fields_from(s: Seq<char>, from: int) -> Seq<Seq<char>>
    decreases s.len() - from,
{
    let begin = word_start(s, from);
    if from < 0 || begin >= s.len() {
        Seq::empty()
    } else {
        let end = word_end(s, begin);
        proof {
            lemma_word_bounds(s, from);
            lemma_word_bounds(s, begin);
        }
        seq![s.subrange(begin, end)] + fields_from(s, end)
    }
}

/// The fields of a line: its runs of characters that are not white space.
pub open spec fn fields(line: Seq<char>) -> Seq<Seq<char>> {
    fields_from(line, 0)
}

/// The lines of `s` from `from` on: what stands between line feeds. A line
/// feed at the very end starts no further line.
pub open spec fn lines_from(s: Seq<char>, from: int) -> Seq<Seq<char>>
    decreases s.len() - from,
{
    if from < 0 || from >= s.len() {
        Seq::empty()
    } else {
        let end = line_end(s, from);
        proof {
            lemma_word_bounds(s, from);
        }
        if end >= s.len() {
            seq![s.subrange(from, end)]
        } else {
            seq![s.subrange(from, end)] + lines_from(s, end + 1)
        }
    }
}

/// The lines of a text.
pub open spec fn lines(content: Seq<char>) -> Seq<Seq<char>> {
    lines_from(content, 0)
}

/// What one line of the store says of a host key.
#[derive(Clone, Copy, Debug, PartialEq, Eq, Structural)]
pub enum LineVerdict {
    /// The line is blank, a comment, incomplete, or about another address.
    Skip,
    /// The line records this address with this very key.
    Same,
    /// The line records this address with another key.
    Changed,
}

/// What the whole store says of a host key.
#[derive(Clone, Copy, Debug, PartialEq, Eq, Structural)]
pub enum HostStatus {
    /// The address is recorded with this key.
    Known,
    /// The address is recorded with another key.
    Changed,
    /// The address is not recorded.
    Unknown,
}

/// What the fields of one line say of the key `key` of kind `algorithm`
/// that `address` presents. A line without fields and a line whose first
/// field begins with `#` say nothing. Else the line speaks of the address
/// in its first field, where it has three fields at least.
pub open spec fn judge_fields(
    fields: Seq<Seq<char>>,
    address: Seq<char>,
    algorithm: Seq<char>,
    key: Seq<char>,
) -> LineVerdict {
    if fields.len() == 0 || fields[0].first() == '#' {
        LineVerdict::Skip
    } else if fields.len() >= 3 && fields[0] == address {
        if fields[1] == algorithm && fields[2] == key {
            LineVerdict::Same
        } else {
            LineVerdict::Changed
        }
    } else {
        LineVerdict::Skip
    }
}

/// What one line says of a host key.
pub open spec fn judge_line(
    line: Seq<char>,
    address: Seq<char>,
    algorithm: Seq<char>,
    key: Seq<char>,
) -> LineVerdict {
    judge_fields(fields(line), address, algorithm, key)
}

/// What the lines from `from` on say of a host key: the first line that
/// speaks of the address decides.
pub open spec fn classify(
    lines: Seq<Seq<char>>,
    from: int,
    address: Seq<char>,
    algorithm: Seq<char>,
    key: Seq<char>,
) -> HostStatus
    decreases lines.len() - from,
{
    if from < 0 || from >= lines.len() {
        HostStatus::Unknown
    } else {
        match judge_line(lines[from], address, algorithm, key) {
            LineVerdict::Same => HostStatus::Known,
            LineVerdict::Changed => HostStatus::Changed,
            LineVerdict::Skip => classify(lines, from + 1, address, algorithm, key),
        }
    }
}

/// What a store with the text `content` says of a host key.
pub open spec fn host_status(
    content: Seq<char>,
    address: Seq<char>,
    algorithm: Seq<char>,
    key: Seq<char>,
) -> HostStatus {
    classify(lines(content), 0, address, algorithm, key)
}

/// The words that a list of character lists holds.
pub open spec fn words_of(found: Seq<Vec<char>>) -> Seq<Seq<char>> {
    Seq::new(found.len(), |i: int| found[i]@)
}

/// The fields of a line, each as a list of characters.
pub fn split_fields(v: &Vec<char>) -> (found: Vec<Vec<char>>)
    ensures
        words_of(found@) == fields(v@),
{
    let mut found: Vec<Vec<char>> = Vec::new();
    let mut at: usize = 0;
    let len = v.len();
    assert(words_of(found@) =~= Seq::<Seq<char>>::empty());
    assert(words_of(found@) + fields_from(v@, 0) =~= fields(v@));
    loop
        invariant
            at <= len == v.len(),
            words_of(found@) + fields_from(v@, at as int) == fields(v@),
        ensures
            words_of(found@) == fields(v@),
        decreases len - at,
    {
        let mut begin = at;
        while begin < len && char_is_space(v[begin])
            invariant
                at <= begin <= len == v.len(),
                word_start(v@, at as int) == word_start(v@, begin as int),
            decreases len - begin,
        {
            begin = begin + 1;
        }
        assert(begin as int == word_start(v@, at as int));
        if begin >= len {
            assert(words_of(found@) + Seq::<Seq<char>>::empty() =~= words_of(found@));
            break ;
        }
        let mut end = begin;
        while end < len && !char_is_space(v[end])
            invariant
                begin <= end <= len == v.len(),
                word_end(v@, begin as int) == word_end(v@, end as int),
            decreases len - end,
        {
            end = end + 1;
        }
        assert(end as int == word_end(v@, begin as int));
        let ghost before = words_of(found@);
        let mut word: Vec<char> = Vec::new();
        let mut i = begin;
        while i < end
            invariant
                begin <= i <= end <= v.len(),
                word@ == v@.subrange(begin as int, i as int),
            decreases end - i,
        {
            word.push(v[i]);
            i = i + 1;
        }
        found.push(word);
        proof {
            lemma_word_bounds(v@, begin as int);
            assert(words_of(found@) =~= before.push(v@.subrange(begin as int, end as int)));
            assert(before.push(v@.subrange(begin as int, end as int)) + fields_from(
                v@,
                end as int,
            ) =~= before + (seq![v@.subrange(begin as int, end as int)] + fields_from(
                v@,
                end as int,
            )));
        }
        at = end;
    }
    found
}

/// Whether a list of characters holds the characters of `text`.
fn holds(word: &Vec<char>, text: &Vec<char>) -> (equal: bool)
    ensures
        equal == (word@ == text@),
{
    if word.len() != text.len() {
        return false;
    }
    let mut i: usize = 0;
    while i < word.len()
        invariant
            i <= word.len() == text.len(),
            forall|j: int| 0 <= j < i ==> word@[j] == text@[j],
        decreases word.len() - i,
    {
        if word[i] != text[i] {
            return false;
        }
        i = i + 1;
    }
    assert(word@ =~= text@);
    true
}

/// What the line `v` says of a host key.
fn judge(v: &Vec<char>, address: &Vec<char>, algorithm: &Vec<char>, key: &Vec<char>) -> (verdict:
    LineVerdict)
    ensures
        verdict == judge_line(v@, address@, algorithm@, key@),
{
    let found = split_fields(v);
    let ghost f = fields(v@);
    assert(found.len() == f.len());
    if found.len() == 0 {
        return LineVerdict::Skip;
    }
    assert(found[0]@ == f[0]);
    proof {
        lemma_fields_not_empty(v@, 0);
    }
    if found[0][0] == '#' {
        return LineVerdict::Skip;
    }
    if found.len() >= 3 && holds(&found[0], address) {
        assert(found[1]@ == f[1]);
        assert(found[2]@ == f[2]);
        if holds(&found[1], algorithm) && holds(&found[2], key) {
            LineVerdict::Same
        } else {
            LineVerdict::Changed
        }
    } else {
        LineVerdict::Skip
    }
}

/// No field is empty, and none holds white space.
pub proof fn lemma_fields_not_empty(s: Seq<char>, from: int)
    requires
        0 <= from <= s.len(),
    ensures
        forall|k: int|
            0 <= k < fields_from(s, from).len() ==> (#[trigger] fields_from(s, from)[k]).len() > 0,
        forall|k: int, i: int|
            0 <= k < fields_from(s, from).len() && 0 <= i < fields_from(s, from)[k].len()
                ==> !is_space(#[trigger] fields_from(s, from)[k][i]),
    decreases s.len() - from,
{
    let begin = word_start(s, from);
    lemma_word_bounds(s, from);
    if begin < s.len() {
        let end = word_end(s, begin);
        lemma_word_bounds(s, begin);
        lemma_fields_not_empty(s, end);
        let rest = fields_from(s, end);
        let all = fields_from(s, from);
        assert(all =~= seq![s.subrange(begin, end)] + rest);
        assert forall|k: int| 0 <= k < all.len() implies (#[trigger] all[k]).len() > 0 by {
            if k > 0 {
                assert(all[k] == rest[k - 1]);
            }
        }
        assert forall|k: int, i: int|
            0 <= k < all.len() && 0 <= i < all[k].len() implies !is_space(#[trigger] all[k][i]) by {
            if k > 0 {
                assert(all[k] == rest[k - 1]);
                assert(!is_space(rest[k - 1][i]));
            } else {
                assert(all[0][i] == s[begin + i]);
            }
        }
    }
}

/// Whether `line` records `address` with the key `key` of kind `algorithm`.
pub fn is_valid_entry(line: &str, address: &str, algorithm: &str, key: &str) -> (valid: bool)
    ensures
        valid == (judge_line(line@, address@, algorithm@, key@) == LineVerdict::Same),
{
    let v = chars_of(line);
    let a = chars_of(address);
    let g = chars_of(algorithm);
    let k = chars_of(key);
    judge(&v, &a, &g, &k) == LineVerdict::Same
}

/// Looks the host key up in the text of the store. The first line
/// that speaks of `address` decides: the host is known where that line has
/// the same algorithm and key, and its key has changed where it has not.
/// The host is unknown where no line speaks of it.
pub fn check_host(content: &str, address: &str, algorithm: &str, key: &str) -> (status: HostStatus)
    ensures
        status == host_status(content@, address@, algorithm@, key@),
{
    let v = chars_of(content);
    let a = chars_of(address);
    let g = chars_of(algorithm);
    let k = chars_of(key);
    let len = v.len();
    let mut at: usize = 0;
    let ghost all = lines(v@);
    let ghost done: int = 0;
    while at < len
        invariant
            at <= len == v.len(),
            v@ == content@,
            a@ == address@,
            g@ == algorithm@,
            k@ == key@,
            all == lines(v@),
            0 <= done <= all.len(),
            all.subrange(done, all.len() as int) == lines_from(v@, at as int),
            classify(all, 0, a@, g@, k@) == classify(all, done, a@, g@, k@),
        decreases len - at,
    {
        let mut end = at;
        while end < len && v[end] != '\n'
            invariant
                at <= end <= len == v.len(),
                line_end(v@, at as int) == line_end(v@, end as int),
            decreases len - end,
        {
            end = end + 1;
        }
        assert(end as int == line_end(v@, at as int));
        let mut line: Vec<char> = Vec::new();
        let mut i = at;
        while i < end
            invariant
                at <= i <= end <= v.len(),
                line@ == v@.subrange(at as int, i as int),
            decreases end - i,
        {
            line.push(v[i]);
            i = i + 1;
        }
        proof {
            let rest = all.subrange(done, all.len() as int);
            lemma_word_bounds(v@, at as int);
            if end < len {
                assert(rest == seq![v@.subrange(at as int, end as int)] + lines_from(v@, end + 1));
                assert(all.subrange(done + 1, all.len() as int) =~= rest.subrange(
                    1,
                    rest.len() as int,
                ));
                assert(rest.subrange(1, rest.len() as int) =~= lines_from(v@, end + 1));
            } else {
                assert(rest == seq![v@.subrange(at as int, end as int)]);
            }
            assert(rest.len() > 0);
            assert(rest[0] == line@);
            assert(all[done] == line@);
            if end < len {
                assert(all.subrange(done + 1, all.len() as int) =~= lines_from(v@, end + 1));
            } else {
                assert(rest.len() == 1);
                assert(done + 1 == all.len());
                assert(all.subrange(done + 1, all.len() as int) =~= Seq::<Seq<char>>::empty());
            }
        }
        match judge(&line, &a, &g, &k) {
            LineVerdict::Same => {
                return HostStatus::Known;
            },
            LineVerdict::Changed => {
                return HostStatus::Changed;
            },
            LineVerdict::Skip => {},
        }
        proof {
            done = done + 1;
        }
        if end < len {
            at = end + 1;
        } else {
            at = len;
        }
    }
    proof {
        assert(lines_from(v@, at as int) =~= Seq::<Seq<char>>::empty());
        assert(done == all.len());
    }
    HostStatus::Unknown
}

/// The line that records a host key in the store: the address, the
/// algorithm and the key, with one blank between them and a line feed at
/// the end.
pub open spec fn entry_line(address: Seq<char>, algorithm: Seq<char>, key: Seq<char>) -> Seq<char> {
    entry_text(address, algorithm, key).push('\n')
}

/// An entry without the line feed that ends it.
pub open spec fn entry_text(address: Seq<char>, algorithm: Seq<char>, key: Seq<char>) -> Seq<char> {
    address + seq![' '] + algorithm + seq![' '] + key
}

/// The line that records a host key in the store.
pub fn format_entry(address: &str, algorithm: &str, key: &str) -> (line: String)
    ensures
        line@ == entry_line(address@, algorithm@, key@),
{
    let mut line = address.to_owned();
    push_char(&mut line, ' ');
    line.append(algorithm);
    push_char(&mut line, ' ');
    line.append(key);
    push_char(&mut line, '\n');
    assert(line@ =~= entry_line(address@, algorithm@, key@));
    line
}

/// Where `s[..to]` ends once the white space at its end is left out.
pub open spec fn trimmed_end(s: Seq<char>, to: int) -> int
    decreases to,
{
    if to <= 0 || to > s.len() {
        0
    } else if !is_space(s[to - 1]) {
        to
    } else {
        trimmed_end(s, to - 1)
    }
}

/// `s` without the white space at its two ends.
pub open spec fn trimmed(s: Seq<char>) -> Seq<char> {
    let begin = word_start(s, 0);
    let end = trimmed_end(s, s.len() as int);
    if begin < end {
        s.subrange(begin, end)
    } else {
        Seq::empty()
    }
}

/// Whether `s` is the word `yes`, in capitals or small letters.
pub open spec fn is_yes(s: Seq<char>) -> bool {
    &&& s.len() == 3
    &&& (s[0] == 'y' || s[0] == 'Y')
    &&& (s[1] == 'e' || s[1] == 'E')
    &&& (s[2] == 's' || s[2] == 'S')
}

/// Whether an answer to the question of trust accepts the key: `yes`, or
/// the fingerprint itself. White space around the answer does not count.
pub open spec fn accepts(answer: Seq<char>, fingerprint: Seq<char>) -> bool {
    is_yes(trimmed(answer)) || trimmed(answer) == fingerprint
}

/// Whether an answer to the question of trust accepts the key.
pub fn answer_accepts(answer: &str, fingerprint: &str) -> (accept: bool)
    ensures
        accept == accepts(answer@, fingerprint@),
{
    let v = chars_of(answer);
    let f = chars_of(fingerprint);
    let len = v.len();
    let mut begin: usize = 0;
    while begin < len && char_is_space(v[begin])
        invariant
            begin <= len == v.len(),
            word_start(v@, 0) == word_start(v@, begin as int),
        decreases len - begin,
    {
        begin = begin + 1;
    }
    assert(begin as int == word_start(v@, 0));
    let mut end: usize = len;
    while end > 0 && char_is_space(v[end - 1])
        invariant
            end <= len == v.len(),
            trimmed_end(v@, len as int) == trimmed_end(v@, end as int),
        decreases end,
    {
        end = end - 1;
    }
    assert(end as int == trimmed_end(v@, len as int));
    let mut word: Vec<char> = Vec::new();
    let mut i = begin;
    while i < end
        invariant
            begin <= i,
            end <= v.len(),
            begin < end ==> i <= end,
            word@ == (if begin < end {
                v@.subrange(begin as int, i as int)
            } else {
                Seq::<char>::empty()
            }),
        decreases end - i,
    {
        word.push(v[i]);
        i = i + 1;
    }
    assert(word@ == trimmed(v@));
    let yes = word.len() == 3 && (word[0] == 'y' || word[0] == 'Y') && (word[1] == 'e' || word[1]
        == 'E') && (word[2] == 's' || word[2] == 'S');
    yes || holds(&word, &f)
}

/// What to do about a host key once the store has been read.
#[derive(Clone, Copy, Debug, PartialEq, Eq, Structural)]
pub enum TrustStep {
    /// Go on: the host is known under this key.
    Accept,
    /// Refuse the connection: the host is known under another key. The
    /// store stays as it is.
    Refuse,
    /// Show the fingerprint and ask whether the key is to be trusted.
    Ask,
}

/// What to do about a host key, given what the store says of it.
pub open spec fn step_for(status: HostStatus) -> TrustStep {
    match status {
        HostStatus::Known => TrustStep::Accept,
        HostStatus::Changed => TrustStep::Refuse,
        HostStatus::Unknown => TrustStep::Ask,
    }
}

/// What to do about a host key, given the text of the store.
pub fn first_step(content: &str, address: &str, algorithm: &str, key: &str) -> (step: TrustStep)
    ensures
        step == step_for(host_status(content@, address@, algorithm@, key@)),
{
    match check_host(content, address, algorithm, key) {
        HostStatus::Known => TrustStep::Accept,
        HostStatus::Changed => TrustStep::Refuse,
        HostStatus::Unknown => TrustStep::Ask,
    }
}

/// How the question of trust was settled.
#[derive(Debug)]
pub struct Decision {
    /// Whether the connection goes on.
    pub accept: bool,
    /// The line to append to the store, if any.
    pub append: Option<String>,
}

/// Settles the question of trust for an unknown host from the user's
/// answer. An accepting answer lets the connection go on and has the key
/// recorded; any other answer refuses and records nothing.
pub fn on_answer(
    answer: &str,
    fingerprint: &str,
    address: &str,
    algorithm: &str,
    key: &str,
) -> (decision: Decision)
    ensures
        decision.accept == accepts(answer@, fingerprint@),
        decision.append.deep_view() == (if accepts(answer@, fingerprint@) {
            Some(entry_line(address@, algorithm@, key@))
        } else {
            None
        }),
{
    if answer_accepts(answer, fingerprint) {
        Decision { accept: true, append: Some(format_entry(address, algorithm, key)) }
    } else {
        Decision { accept: false, append: None }
    }
}

/// Whether the verification of a host key lets the connection go on, and
/// the text of the store after it.
pub struct Outcome {
    pub accept: bool,
    pub store: Seq<char>,
}

/// The verification of a host key against a store with the text `content`,
/// where the user answers `answer` if asked.
pub open spec fn verify(
    content: Seq<char>,
    address: Seq<char>,
    algorithm: Seq<char>,
    key: Seq<char>,
    answer: Seq<char>,
    fingerprint: Seq<char>,
) -> Outcome {
    match step_for(host_status(content, address, algorithm, key)) {
        TrustStep::Accept => Outcome { accept: true, store: content },
        TrustStep::Refuse => Outcome { accept: false, store: content },
        TrustStep::Ask => if accepts(answer, fingerprint) {
            Outcome { accept: true, store: content + entry_line(address, algorithm, key) }
        } else {
            Outcome { accept: false, store: content }
        },
    }
}

/// Whether `s` can stand as one field of an entry: it is not empty and
/// holds no white space.
pub open spec fn is_word(s: Seq<char>) -> bool {
    s.len() > 0 && forall|i: int| 0 <= i < s.len() ==> !is_space(#[trigger] s[i])
}

/// Whether a text can take a further entry at its end: it is empty, or it
/// ends with a line feed.
pub open spec fn ends_lines(content: Seq<char>) -> bool {
    content.len() == 0 || content.last() == '\n'
}

proof fn lemma_word_end_is(s: Seq<char>, from: int, end: int)
    requires
        0 <= from <= end <= s.len(),
        forall|i: int| from <= i < end ==> !is_space(#[trigger] s[i]),
        end == s.len() || is_space(s[end]),
    ensures
        word_end(s, from) == end,
    decreases end - from,
{
    if from < end {
        lemma_word_end_is(s, from + 1, end);
    }
}

proof fn lemma_line_end_is(s: Seq<char>, from: int, end: int)
    requires
        0 <= from <= end <= s.len(),
        forall|i: int| from <= i < end ==> #[trigger] s[i] != '\n',
        end == s.len() || s[end] == '\n',
    ensures
        line_end(s, from) == end,
    decreases end - from,
{
    if from < end {
        lemma_line_end_is(s, from + 1, end);
    }
}

/// The fields of an entry made of three words are the three words.
pub proof fn lemma_entry_fields(address: Seq<char>, algorithm: Seq<char>, key: Seq<char>)
    requires
        is_word(address),
        is_word(algorithm),
        is_word(key),
    ensures
        fields(entry_text(address, algorithm, key)) == seq![address, algorithm, key],
{
    let s = entry_text(address, algorithm, key);
    let a = address.len() as int;
    let b = a + 1 + algorithm.len();
    let c = b + 1 + key.len();
    assert(s.len() == c);
    assert(forall|i: int| 0 <= i < a ==> s[i] == address[i]);
    assert(s[a] == ' ');
    assert(forall|i: int| a + 1 <= i < b ==> s[i] == algorithm[i - a - 1]);
    assert(s[b] == ' ');
    assert(forall|i: int| b + 1 <= i < c ==> s[i] == key[i - b - 1]);
    assert(is_space(' '));
    // the third field
    assert(!is_space(s[b + 1])) by {
        assert(s[b + 1] == key[0]);
    }
    assert(word_start(s, b + 1) == b + 1);
    assert(word_start(s, b) == b + 1);
    assert forall|i: int| b + 1 <= i < c implies !is_space(#[trigger] s[i]) by {
        assert(s[i] == key[i - b - 1]);
    }
    lemma_word_end_is(s, b + 1, c);
    assert(fields_from(s, c) =~= Seq::<Seq<char>>::empty());
    assert(s.subrange(b + 1, c) =~= key);
    assert(fields_from(s, b) =~= seq![key]);
    // the second field
    assert(!is_space(s[a + 1])) by {
        assert(s[a + 1] == algorithm[0]);
    }
    assert(word_start(s, a + 1) == a + 1);
    assert(word_start(s, a) == a + 1);
    assert forall|i: int| a + 1 <= i < b implies !is_space(#[trigger] s[i]) by {
        assert(s[i] == algorithm[i - a - 1]);
    }
    lemma_word_end_is(s, a + 1, b);
    assert(s.subrange(a + 1, b) =~= algorithm);
    assert(fields_from(s, a) =~= seq![algorithm, key]);
    // the first field
    assert(!is_space(s[0])) by {
        assert(s[0] == address[0]);
    }
    assert(word_start(s, 0) == 0);
    assert forall|i: int| 0 <= i < a implies !is_space(#[trigger] s[i]) by {
        assert(s[i] == address[i]);
    }
    lemma_word_end_is(s, 0, a);
    assert(s.subrange(0, a) =~= address);
    assert(fields_from(s, 0) =~= seq![address, algorithm, key]);
}

/// A line without a line feed, appended with its line feed to a text that
/// can take it, becomes the last line and leaves the earlier lines alone.
pub proof fn lemma_lines_append(content: Seq<char>, line: Seq<char>, from: int)
    requires
        ends_lines(content),
        forall|i: int| 0 <= i < line.len() ==> #[trigger] line[i] != '\n',
        0 <= from <= content.len(),
        from == 0 || content[from - 1] == '\n',
    ensures
        lines_from(content + line.push('\n'), from) == lines_from(content, from).push(line),
    decreases content.len() - from,
{
    let t = content + line.push('\n');
    let n = content.len() as int;
    if from == n {
        assert(lines_from(content, from) =~= Seq::<Seq<char>>::empty());
        assert forall|i: int| n <= i < n + line.len() implies #[trigger] t[i] != '\n' by {
            assert(t[i] == line[i - n]);
        }
        assert(t[n + line.len()] == '\n');
        lemma_line_end_is(t, n, n + line.len());
        assert(t.subrange(n, n + line.len()) =~= line);
        assert(lines_from(t, n + line.len() + 1) =~= Seq::<Seq<char>>::empty());
        assert(lines_from(t, n) =~= seq![line]);
    } else {
        let end = line_end(content, from);
        lemma_word_bounds(content, from);
        assert(end < n) by {
            if end >= n {
                assert(content[n - 1] != '\n');
            }
        }
        assert forall|i: int| from <= i < end implies #[trigger] t[i] != '\n' by {
            assert(t[i] == content[i]);
        }
        assert(t[end] == content[end]);
        lemma_line_end_is(t, from, end);
        lemma_lines_append(content, line, end + 1);
        assert(t.subrange(from, end) =~= content.subrange(from, end));
        let first = content.subrange(from, end);
        let rest = lines_from(content, end + 1);
        assert(lines_from(content, from) == seq![first] + rest);
        assert(lines_from(t, from) == seq![first] + rest.push(line));
        assert((seq![first] + rest).push(line) =~= seq![first] + rest.push(line));
    }
}

/// A further line at the end decides only where no earlier line has.
pub proof fn lemma_classify_push(
    lines: Seq<Seq<char>>,
    line: Seq<char>,
    from: int,
    address: Seq<char>,
    algorithm: Seq<char>,
    key: Seq<char>,
)
    requires
        0 <= from <= lines.len(),
    ensures
        classify(lines.push(line), from, address, algorithm, key) == match classify(
            lines,
            from,
            address,
            algorithm,
            key,
        ) {
            HostStatus::Unknown => match judge_line(line, address, algorithm, key) {
                LineVerdict::Same => HostStatus::Known,
                LineVerdict::Changed => HostStatus::Changed,
                LineVerdict::Skip => HostStatus::Unknown,
            },
            decided => decided,
        },
    decreases lines.len() - from,
{
    let longer = lines.push(line);
    if from < lines.len() {
        assert(longer[from] == lines[from]);
        lemma_classify_push(lines, line, from + 1, address, algorithm, key);
    } else {
        assert(longer[from] == line);
        assert(classify(longer, from + 1, address, algorithm, key) == HostStatus::Unknown);
    }
}

/// Whether the store knows an address does not depend on the key that is
/// asked about.
pub proof fn lemma_unknown_for_every_key(
    lines: Seq<Seq<char>>,
    from: int,
    address: Seq<char>,
    algorithm: Seq<char>,
    key: Seq<char>,
    other_algorithm: Seq<char>,
    other_key: Seq<char>,
)
    requires
        0 <= from <= lines.len(),
    ensures
        (classify(lines, from, address, algorithm, key) == HostStatus::Unknown) == (classify(
            lines,
            from,
            address,
            other_algorithm,
            other_key,
        ) == HostStatus::Unknown),
    decreases lines.len() - from,
{
    if from < lines.len() {
        lemma_unknown_for_every_key(
            lines,
            from + 1,
            address,
            algorithm,
            key,
            other_algorithm,
            other_key,
        );
    }
}

/// An entry is one line, and that line records its own address with its
/// own key.
pub proof fn lemma_entry_is_well_formed(
    address: Seq<char>,
    algorithm: Seq<char>,
    key: Seq<char>,
)
    requires
        is_word(address),
        is_word(algorithm),
        is_word(key),
        address[0] != '#',
    ensures
        lines(entry_line(address, algorithm, key)) == seq![entry_text(address, algorithm, key)],
        judge_line(entry_text(address, algorithm, key), address, algorithm, key)
            == LineVerdict::Same,
{
    let text = entry_text(address, algorithm, key);
    lemma_entry_text_one_line(address, algorithm, key);
    lemma_lines_append(Seq::empty(), text, 0);
    assert(Seq::<char>::empty() + text.push('\n') =~= entry_line(address, algorithm, key));
    assert(lines_from(Seq::<char>::empty(), 0) =~= Seq::<Seq<char>>::empty());
    assert(Seq::<Seq<char>>::empty().push(text) =~= seq![text]);
    lemma_entry_fields(address, algorithm, key);
}

proof fn lemma_entry_text_one_line(address: Seq<char>, algorithm: Seq<char>, key: Seq<char>)
    requires
        is_word(address),
        is_word(algorithm),
        is_word(key),
    ensures
        forall|i: int|
            0 <= i < entry_text(address, algorithm, key).len() ==> #[trigger] entry_text(
                address,
                algorithm,
                key,
            )[i] != '\n',
{
    let s = entry_text(address, algorithm, key);
    let a = address.len() as int;
    let b = a + 1 + algorithm.len();
    assert(is_space('\n'));
    assert forall|i: int| 0 <= i < s.len() implies #[trigger] s[i] != '\n' by {
        if i < a {
            assert(s[i] == address[i]);
        } else if i == a {
        } else if i < b {
            assert(s[i] == algorithm[i - a - 1]);
        } else if i == b {
        } else {
            assert(s[i] == key[i - b - 1]);
        }
    }
}

/// An empty store knows no host, so the user is asked; an accepting answer
/// lets the connection go on and leaves a store that holds the entry of
/// this key and nothing else.
pub proof fn lemma_first_trust(
    address: Seq<char>,
    algorithm: Seq<char>,
    key: Seq<char>,
    answer: Seq<char>,
    fingerprint: Seq<char>,
)
    requires
        accepts(answer, fingerprint),
    ensures
        verify(Seq::empty(), address, algorithm, key, answer, fingerprint) == (Outcome {
            accept: true,
            store: entry_line(address, algorithm, key),
        }),
{
    assert(lines(Seq::<char>::empty()) =~= Seq::<Seq<char>>::empty());
    assert(Seq::<char>::empty() + entry_line(address, algorithm, key) =~= entry_line(
        address,
        algorithm,
        key,
    ));
}

/// Once the key of an unknown host has been recorded, the same key of the
/// same host is accepted, whatever the user would answer.
pub proof fn lemma_trusted_host_is_known(
    content: Seq<char>,
    address: Seq<char>,
    algorithm: Seq<char>,
    key: Seq<char>,
    answer: Seq<char>,
    fingerprint: Seq<char>,
)
    requires
        ends_lines(content),
        is_word(address),
        is_word(algorithm),
        is_word(key),
        address[0] != '#',
        host_status(content, address, algorithm, key) == HostStatus::Unknown,
    ensures
        host_status(content + entry_line(address, algorithm, key), address, algorithm, key)
            == HostStatus::Known,
        verify(
            content + entry_line(address, algorithm, key),
            address,
            algorithm,
            key,
            answer,
            fingerprint,
        ) == (Outcome { accept: true, store: content + entry_line(address, algorithm, key) }),
{
    let text = entry_text(address, algorithm, key);
    lemma_entry_text_one_line(address, algorithm, key);
    lemma_lines_append(content, text, 0);
    lemma_classify_push(lines(content), text, 0, address, algorithm, key);
    lemma_entry_fields(address, algorithm, key);
}

/// Once a key of a host has been recorded, another key of the same host is
/// refused, and the store stays as it is, whatever the user would answer.
pub proof fn lemma_changed_key_is_refused(
    content: Seq<char>,
    address: Seq<char>,
    algorithm: Seq<char>,
    key: Seq<char>,
    other_algorithm: Seq<char>,
    other_key: Seq<char>,
    answer: Seq<char>,
    fingerprint: Seq<char>,
)
    requires
        ends_lines(content),
        is_word(address),
        is_word(algorithm),
        is_word(key),
        address[0] != '#',
        host_status(content, address, algorithm, key) == HostStatus::Unknown,
        other_algorithm != algorithm || other_key != key,
    ensures
        verify(
            content + entry_line(address, algorithm, key),
            address,
            other_algorithm,
            other_key,
            answer,
            fingerprint,
        ) == (Outcome { accept: false, store: content + entry_line(address, algorithm, key) }),
{
    let text = entry_text(address, algorithm, key);
    lemma_entry_text_one_line(address, algorithm, key);
    lemma_lines_append(content, text, 0);
    lemma_unknown_for_every_key(
        lines(content),
        0,
        address,
        algorithm,
        key,
        other_algorithm,
        other_key,
    );
    lemma_classify_push(lines(content), text, 0, address, other_algorithm, other_key);
    lemma_entry_fields(address, algorithm, key);
}

/// Whatever the store and the answer, the verification leaves the store as
/// it was or adds the one entry of this key at its end, and it adds the
/// entry only where it accepts.
pub proof fn lemma_store_only_grows(
    content: Seq<char>,
    address: Seq<char>,
    algorithm: Seq<char>,
    key: Seq<char>,
    answer: Seq<char>,
    fingerprint: Seq<char>,
)
    ensures
        ({
            let after = verify(content, address, algorithm, key, answer, fingerprint);
            after.store == content || (after.accept && after.store == content + entry_line(
                address,
                algorithm,
                key,
            ))
        }),
{
}

} // verus!
