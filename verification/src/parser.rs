//! The pipeline parser: from a raw line to an ordered sequence of commands.
//!
//! A line is cut at every pipe character into segments, and each segment is
//! cut at runs of whitespace into tokens. The first token of a segment names
//! the program, the rest are its arguments. There is no quoting and no
//! escaping: a pipe character always separates two segments.

use vstd::prelude::*;
use vstd::string::*;

verus! {

/// The character that separates the segments of a pipeline.
pub const PIPE: char = '|';

/// One command of a pipeline: a program name and its arguments.
///
/// A segment without any token gives the empty command, whose program is the
/// empty string.
#[derive(Debug, PartialEq, Eq)]
pub struct CommandSpec {
    pub program: String,
    pub arguments: Vec<String>,
}

/// The mathematical value of a [`CommandSpec`].
pub struct CommandView {
    pub program: Seq<char>,
    pub arguments: Seq<Seq<char>>,
}

impl View for CommandSpec {
    type V = CommandView;

    open spec fn view(&self) -> CommandView {
        CommandView { program: self.program@, arguments: self.arguments.deep_view() }
    }
}

impl DeepView for CommandSpec {
    type V = CommandView;

    open spec fn deep_view(&self) -> CommandView {
        self.view()
    }
}

/// Whether `c` is white space in the sense of Unicode (`White_Space`).
pub open spec fn spec_is_whitespace(c: char) -> bool {
    let n: u32 = c as u32;
    ||| 0x09 <= n <= 0x0D
    ||| n == 0x20
    ||| n == 0x85
    ||| n == 0xA0
    ||| n == 0x1680
    ||| 0x2000 <= n <= 0x200A
    ||| n == 0x2028
    ||| n == 0x2029
    ||| n == 0x202F
    ||| n == 0x205F
    ||| n == 0x3000
}

/// The length of the longest prefix of `s` that holds no whitespace.
pub open spec fn word_len(s: Seq<char>) -> nat
    decreases s.len(),
{
    if s.len() == 0 || spec_is_whitespace(s[0]) {
        0
    } else {
        1 + word_len(s.drop_first())
    }
}

/// The tokens of `s`: its maximal runs of characters that are not whitespace,
/// from left to right.
pub open spec fn spec_tokens(s: Seq<char>) -> Seq<Seq<char>>
    decreases s.len(),
{
    if s.len() == 0 {
        Seq::empty()
    } else if spec_is_whitespace(s[0]) {
        spec_tokens(s.drop_first())
    } else {
        let n: int = word_len(s) as int;
        proof {
            lemma_word_len(s);
        }
        seq![s.take(n)] + spec_tokens(s.skip(n))
    }
}

/// The length of the longest prefix of `s` that holds no pipe character.
pub open spec fn segment_len(s: Seq<char>) -> nat
    decreases s.len(),
{
    if s.len() == 0 || s[0] == PIPE {
        0
    } else {
        1 + segment_len(s.drop_first())
    }
}

/// The segments of `s`: what stands before, between and after its pipe
/// characters, from left to right. There is always at least one, and any of
/// them may be empty.
pub open spec fn spec_segments(s: Seq<char>) -> Seq<Seq<char>>
    decreases s.len(),
{
    let n: int = segment_len(s) as int;
    if n >= s.len() {
        seq![s]
    } else {
        seq![s.take(n)] + spec_segments(s.skip(n + 1))
    }
}

/// The command of a segment without any token: no program, no arguments.
pub open spec fn empty_command() -> CommandView {
    CommandView { program: Seq::empty(), arguments: Seq::empty() }
}

/// The command that a segment stands for: its first token is the program,
/// the other tokens are the arguments. The whitespace around the segment
/// plays no part, see [`lemma_tokens_ignore_trim`].
pub open spec fn spec_command(segment: Seq<char>) -> CommandView {
    let tokens = spec_tokens(segment);
    if tokens.len() == 0 {
        empty_command()
    } else {
        CommandView { program: tokens[0], arguments: tokens.drop_first() }
    }
}

/// The pipeline that a line stands for: one command for each segment, in the
/// order of the data flow.
pub open spec fn spec_parse(line: Seq<char>) -> Seq<CommandView> {
    spec_segments(line).map_values(|segment: Seq<char>| spec_command(segment))
}

/// `word_len(s)` is within `s`, nothing before it is whitespace, and what
/// stands at it, if anything, is whitespace.
pub proof fn lemma_word_len(s: Seq<char>)
    ensures
        word_len(s) <= s.len(),
        forall|i: int| 0 <= i < word_len(s) ==> !spec_is_whitespace(#[trigger] s[i]),
        word_len(s) < s.len() ==> spec_is_whitespace(s[word_len(s) as int]),
        s.len() > 0 && !spec_is_whitespace(s[0]) ==> word_len(s) >= 1,
    decreases s.len(),
{
    if s.len() > 0 && !spec_is_whitespace(s[0]) {
        let rest = s.drop_first();
        lemma_word_len(rest);
        assert forall|i: int| 0 <= i < word_len(s) implies !spec_is_whitespace(#[trigger] s[i]) by {
            if i > 0 {
                assert(s[i] == rest[i - 1]);
            }
        }
    }
}

/// What [`lemma_word_len`] says of `word_len(s)` holds of no other number.
pub proof fn lemma_word_len_unique(s: Seq<char>, n: int)
    requires
        0 <= n <= s.len(),
        forall|i: int| 0 <= i < n ==> !spec_is_whitespace(#[trigger] s[i]),
        n < s.len() ==> spec_is_whitespace(s[n]),
    ensures
        word_len(s) == n,
    decreases s.len(),
{
    if s.len() > 0 && !spec_is_whitespace(s[0]) {
        let rest = s.drop_first();
        assert forall|i: int| 0 <= i < n - 1 implies !spec_is_whitespace(#[trigger] rest[i]) by {
            assert(rest[i] == s[i + 1]);
        }
        lemma_word_len_unique(rest, n - 1);
    }
}

/// `segment_len(s)` is within `s`, nothing before it is a pipe character, and
/// what stands at it, if anything, is one.
pub proof fn lemma_segment_len(s: Seq<char>)
    ensures
        segment_len(s) <= s.len(),
        forall|i: int| 0 <= i < segment_len(s) ==> #[trigger] s[i] != PIPE,
        segment_len(s) < s.len() ==> s[segment_len(s) as int] == PIPE,
    decreases s.len(),
{
    if s.len() > 0 && s[0] != PIPE {
        let rest = s.drop_first();
        lemma_segment_len(rest);
        assert forall|i: int| 0 <= i < segment_len(s) implies #[trigger] s[i] != PIPE by {
            if i > 0 {
                assert(s[i] == rest[i - 1]);
            }
        }
    }
}

/// What [`lemma_segment_len`] says of `segment_len(s)` holds of no other
/// number.
pub proof fn lemma_segment_len_unique(s: Seq<char>, n: int)
    requires
        0 <= n <= s.len(),
        forall|i: int| 0 <= i < n ==> #[trigger] s[i] != PIPE,
        n < s.len() ==> s[n] == PIPE,
    ensures
        segment_len(s) == n,
    decreases s.len(),
{
    if s.len() > 0 && s[0] != PIPE {
        let rest = s.drop_first();
        assert forall|i: int| 0 <= i < n - 1 implies #[trigger] rest[i] != PIPE by {
            assert(rest[i] == s[i + 1]);
        }
        lemma_segment_len_unique(rest, n - 1);
    }
}

/// Whether `s` holds nothing but whitespace.
pub open spec fn blank(s: Seq<char>) -> bool {
    forall|i: int| 0 <= i < s.len() ==> spec_is_whitespace(#[trigger] s[i])
}

/// A text has no tokens exactly when it is blank.
pub proof fn lemma_blank_has_no_tokens(s: Seq<char>)
    ensures
        blank(s) <==> spec_tokens(s).len() == 0,
    decreases s.len(),
{
    if s.len() > 0 && spec_is_whitespace(s[0]) {
        let rest = s.drop_first();
        lemma_blank_has_no_tokens(rest);
        if blank(rest) {
            assert forall|i: int| 0 <= i < s.len() implies spec_is_whitespace(#[trigger] s[i]) by {
                if i > 0 {
                    assert(s[i] == rest[i - 1]);
                }
            }
        }
        if blank(s) {
            assert forall|i: int| 0 <= i < rest.len() implies spec_is_whitespace(
                #[trigger] rest[i],
            ) by {
                assert(rest[i] == s[i + 1]);
            }
        }
    } else if s.len() > 0 {
        assert(!spec_is_whitespace(s[0]));
    }
}

/// Whether `t` holds at least one character and no whitespace.
pub open spec fn is_word(t: Seq<char>) -> bool {
    &&& t.len() > 0
    &&& forall|i: int| 0 <= i < t.len() ==> !spec_is_whitespace(#[trigger] t[i])
}

/// Every token holds at least one character and no whitespace.
pub proof fn lemma_tokens_are_words(s: Seq<char>)
    ensures
        forall|k: int| 0 <= k < spec_tokens(s).len() ==> is_word(#[trigger] spec_tokens(s)[k]),
    decreases s.len(),
{
    if s.len() == 0 {
    } else if spec_is_whitespace(s[0]) {
        lemma_tokens_are_words(s.drop_first());
        assert(spec_tokens(s) == spec_tokens(s.drop_first()));
    } else {
        let n: int = word_len(s) as int;
        lemma_word_len(s);
        lemma_tokens_are_words(s.skip(n));
        let rest = spec_tokens(s.skip(n));
        assert forall|k: int| 0 <= k < spec_tokens(s).len() implies is_word(
            #[trigger] spec_tokens(s)[k],
        ) by {
            if k > 0 {
                assert(spec_tokens(s)[k] == rest[k - 1]);
            }
        }
    }
}

/// No segment holds a pipe character, and a text without one is its own
/// single segment.
pub proof fn lemma_segments_hold_no_pipe(s: Seq<char>)
    ensures
        spec_segments(s).len() >= 1,
        forall|k: int|
            0 <= k < spec_segments(s).len() ==> !(#[trigger] spec_segments(s)[k]).contains(PIPE),
        !s.contains(PIPE) ==> spec_segments(s) == seq![s],
    decreases s.len(),
{
    let n: int = segment_len(s) as int;
    lemma_segment_len(s);
    if n < s.len() {
        let rest = spec_segments(s.skip(n + 1));
        lemma_segments_hold_no_pipe(s.skip(n + 1));
        assert forall|k: int| 0 <= k < spec_segments(s).len() implies !(
        #[trigger] spec_segments(s)[k]).contains(PIPE) by {
            if k > 0 {
                assert(spec_segments(s)[k] == rest[k - 1]);
            }
        }
    }
}

/// A blank line is a pipeline of one empty command.
pub proof fn lemma_blank_line_is_empty_command(line: Seq<char>)
    requires
        blank(line),
    ensures
        spec_parse(line) == seq![empty_command()],
{
    assert(!line.contains(PIPE)) by {
        if line.contains(PIPE) {
            let i: int = choose|i: int| 0 <= i < line.len() && line[i] == PIPE;
            assert(spec_is_whitespace(line[i]));
        }
    }
    lemma_segments_hold_no_pipe(line);
    lemma_blank_has_no_tokens(line);
}

/// `s` without its leading whitespace.
pub open spec fn spec_trim_start(s: Seq<char>) -> Seq<char>
    decreases s.len(),
{
    if s.len() > 0 && spec_is_whitespace(s[0]) {
        spec_trim_start(s.drop_first())
    } else {
        s
    }
}

/// `s` without its trailing whitespace.
pub open spec fn spec_trim_end(s: Seq<char>) -> Seq<char>
    decreases s.len(),
{
    if s.len() > 0 && spec_is_whitespace(s.last()) {
        spec_trim_end(s.drop_last())
    } else {
        s
    }
}

/// `s` without its leading and trailing whitespace.
pub open spec fn spec_trim(s: Seq<char>) -> Seq<char> {
    spec_trim_end(spec_trim_start(s))
}

/// Whitespace at the end of a text adds no token.
pub proof fn lemma_tokens_ignore_trailing(s: Seq<char>, c: char)
    requires
        spec_is_whitespace(c),
    ensures
        spec_tokens(s.push(c)) == spec_tokens(s),
    decreases s.len(),
{
    let longer = s.push(c);
    if s.len() == 0 {
        assert(longer.drop_first() =~= s);
    } else if spec_is_whitespace(s[0]) {
        assert(longer.drop_first() =~= s.drop_first().push(c));
        lemma_tokens_ignore_trailing(s.drop_first(), c);
    } else {
        let n: int = word_len(s) as int;
        lemma_word_len(s);
        lemma_word_len_unique(longer, n);
        assert(longer.take(n) =~= s.take(n));
        assert(longer.skip(n) =~= s.skip(n).push(c));
        lemma_tokens_ignore_trailing(s.skip(n), c);
    }
}

/// The whitespace around a segment belongs to no token: a segment has the
/// tokens of what is left when it is trimmed.
pub proof fn lemma_tokens_ignore_trim(s: Seq<char>)
    ensures
        spec_tokens(spec_trim_start(s)) == spec_tokens(s),
        spec_tokens(spec_trim_end(s)) == spec_tokens(s),
        spec_tokens(spec_trim(s)) == spec_tokens(s),
    decreases s.len(),
{
    if s.len() > 0 && spec_is_whitespace(s[0]) {
        lemma_tokens_ignore_trim(s.drop_first());
    }
    if s.len() > 0 && spec_is_whitespace(s.last()) {
        lemma_tokens_ignore_trim(s.drop_last());
        assert(s.drop_last().push(s.last()) =~= s);
        lemma_tokens_ignore_trailing(s.drop_last(), s.last());
    }
    lemma_trim_start_is_shorter(s);
    if spec_trim_start(s).len() < s.len() {
        lemma_tokens_ignore_trim(spec_trim_start(s));
    }
}

proof fn lemma_trim_start_is_shorter(s: Seq<char>)
    ensures
        spec_trim_start(s).len() <= s.len(),
        spec_trim_start(s).len() == s.len() ==> spec_trim_start(s) == s,
    decreases s.len(),
{
    if s.len() > 0 && spec_is_whitespace(s[0]) {
        lemma_trim_start_is_shorter(s.drop_first());
    }
}

/// Whitespace at the start of a line changes no command.
proof fn lemma_parse_ignores_leading(s: Seq<char>)
    requires
        s.len() > 0,
        spec_is_whitespace(s[0]),
    ensures
        spec_parse(s.drop_first()) == spec_parse(s),
{
    let shorter = s.drop_first();
    let n: int = segment_len(s) as int;
    lemma_segment_len(s);
    lemma_segment_len(shorter);
    assert(segment_len(shorter) == n - 1);
    assert(spec_tokens(s.take(n)) == spec_tokens(s.take(n).drop_first()));
    if n >= s.len() {
        assert(s.take(n).drop_first() =~= shorter);
        assert(s.take(n) =~= s);
    } else {
        assert(shorter.take(n - 1) =~= s.take(n).drop_first());
        assert(shorter.skip(n) =~= s.skip(n + 1));
    }
    assert(spec_parse(shorter) =~= spec_parse(s));
}

/// Whitespace at the end of a line changes no command.
proof fn lemma_parse_ignores_trailing(s: Seq<char>, c: char)
    requires
        spec_is_whitespace(c),
    ensures
        spec_parse(s.push(c)) == spec_parse(s),
    decreases s.len(),
{
    let longer = s.push(c);
    let n: int = segment_len(s) as int;
    lemma_segment_len(s);
    if n >= s.len() {
        lemma_segment_len_unique(longer, n + 1);
        lemma_tokens_ignore_trailing(s, c);
        assert(spec_parse(longer) =~= spec_parse(s));
    } else {
        lemma_segment_len_unique(longer, n);
        assert(longer.take(n) =~= s.take(n));
        assert(longer.skip(n + 1) =~= s.skip(n + 1).push(c));
        lemma_parse_ignores_trailing(s.skip(n + 1), c);
        assert(spec_parse(longer) =~= seq![spec_command(s.take(n))] + spec_parse(
            s.skip(n + 1).push(c),
        ));
        assert(spec_parse(s) =~= seq![spec_command(s.take(n))] + spec_parse(s.skip(n + 1)));
    }
}

/// A line may be trimmed before it is parsed, or not: the whitespace at its
/// two ends changes no command.
pub proof fn lemma_parse_ignores_trim(line: Seq<char>)
    ensures
        spec_parse(spec_trim_start(line)) == spec_parse(line),
        spec_parse(spec_trim_end(line)) == spec_parse(line),
        spec_parse(spec_trim(line)) == spec_parse(line),
    decreases line.len(),
{
    if line.len() > 0 && spec_is_whitespace(line[0]) {
        lemma_parse_ignores_trim(line.drop_first());
        lemma_parse_ignores_leading(line);
    }
    if line.len() > 0 && spec_is_whitespace(line.last()) {
        lemma_parse_ignores_trim(line.drop_last());
        assert(line.drop_last().push(line.last()) =~= line);
        lemma_parse_ignores_trailing(line.drop_last(), line.last());
    }
    lemma_trim_start_is_shorter(line);
    if spec_trim_start(line).len() < line.len() {
        lemma_parse_ignores_trim(spec_trim_start(line));
    }
}

/// The segments of a text, put together again with a pipe character between
/// each two.
pub open spec fn spec_join(segments: Seq<Seq<char>>) -> Seq<char>
    decreases segments.len(),
{
    if segments.len() == 0 {
        Seq::empty()
    } else if segments.len() == 1 {
        segments[0]
    } else {
        segments[0].push(PIPE) + spec_join(segments.drop_first())
    }
}

/// Cutting a text into segments loses nothing: joined again, the segments
/// give the text.
pub proof fn lemma_segments_join(s: Seq<char>)
    ensures
        spec_join(spec_segments(s)) == s,
    decreases s.len(),
{
    let n: int = segment_len(s) as int;
    lemma_segment_len(s);
    if n < s.len() {
        let rest = s.skip(n + 1);
        lemma_segments_join(rest);
        lemma_segments_hold_no_pipe(rest);
        assert(spec_segments(s).drop_first() =~= spec_segments(rest));
    }
}

/// Whether `c` is whitespace.
#[verifier::when_used_as_spec(spec_is_whitespace)]
pub fn is_whitespace(c: char) -> (r: bool)
    ensures
        r == spec_is_whitespace(c),
{
    let n: u32 = c as u32;
    (0x09 <= n && n <= 0x0D) || n == 0x20 || n == 0x85 || n == 0xA0 || n == 0x1680 || (0x2000 <= n
        && n <= 0x200A) || n == 0x2028 || n == 0x2029 || n == 0x202F || n == 0x205F || n == 0x3000
}

/// The characters of `text`, one by one.
fn characters(text: &str) -> (chars: Vec<char>)
    ensures
        chars@ == text@,
{
    let mut chars: Vec<char> = Vec::new();
    for c in it: text.chars()
        invariant
            it.seq() == text@,
            chars@ == it.seq().take(it.index() as int),
    {
        chars.push(c);
    }
    chars
}

/// Cuts a segment into its tokens.
pub fn tokenize(segment: &str) -> (tokens: Vec<String>)
    ensures
        tokens.deep_view() == spec_tokens(segment@),
{
    let chars = characters(segment);
    let n: usize = chars.len();
    let mut tokens: Vec<String> = Vec::new();
    let mut i: usize = 0;
    assert(segment@.skip(0) =~= segment@);
    while i < n
        invariant
            i <= n,
            n == chars@.len(),
            chars@ == segment@,
            spec_tokens(segment@) == tokens.deep_view() + spec_tokens(segment@.skip(i as int)),
        decreases n - i,
    {
        let ghost rest = segment@.skip(i as int);
        if is_whitespace(chars[i]) {
            assert(rest.drop_first() =~= segment@.skip(i + 1));
            i += 1;
        } else {
            let start: usize = i;
            i += 1;
            while i < n && !is_whitespace(chars[i])
                invariant
                    start < i <= n,
                    n == chars@.len(),
                    forall|k: int| start <= k < i ==> !spec_is_whitespace(#[trigger] chars@[k]),
                decreases n - i,
            {
                i += 1;
            }
            let token = segment.substring_char(start, i).to_owned();
            proof {
                lemma_word_len_unique(rest, i - start);
                assert(rest.take(i - start) =~= segment@.subrange(start as int, i as int));
                assert(rest.skip(i - start) =~= segment@.skip(i as int));
                assert(tokens.deep_view().push(token@) + spec_tokens(segment@.skip(i as int))
                    =~= tokens.deep_view() + spec_tokens(rest));
            }
            tokens.push(token);
        }
    }
    tokens
}

/// Cuts a line into its segments.
pub fn split_segments(line: &str) -> (segments: Vec<String>)
    ensures
        segments.deep_view() == spec_segments(line@),
{
    let chars = characters(line);
    let n: usize = chars.len();
    let mut segments: Vec<String> = Vec::new();
    let mut start: usize = 0;
    let mut i: usize = 0;
    assert(line@.skip(0) =~= line@);
    while i < n
        invariant
            start <= i <= n,
            n == chars@.len(),
            chars@ == line@,
            forall|k: int| start <= k < i ==> #[trigger] chars@[k] != PIPE,
            spec_segments(line@) == segments.deep_view() + spec_segments(line@.skip(start as int)),
        decreases n - i,
    {
        if chars[i] == PIPE {
            let ghost rest = line@.skip(start as int);
            let segment = line.substring_char(start, i).to_owned();
            proof {
                lemma_segment_len_unique(rest, i - start);
                assert(rest.take(i - start) =~= line@.subrange(start as int, i as int));
                assert(rest.skip(i - start + 1) =~= line@.skip(i + 1));
                assert(segments.deep_view().push(segment@) + spec_segments(line@.skip(i + 1))
                    =~= segments.deep_view() + spec_segments(rest));
            }
            segments.push(segment);
            start = i + 1;
        }
        i += 1;
    }
    let ghost rest = line@.skip(start as int);
    let segment = line.substring_char(start, n).to_owned();
    proof {
        lemma_segment_len_unique(rest, n - start);
    }
    segments.push(segment);
    segments
}

/// Reads one segment as a command: the first token is the program, the
/// others are its arguments.
pub fn parse_segment(segment: &str) -> (command: CommandSpec)
    ensures
        command@ == spec_command(segment@),
{
    let mut tokens = tokenize(segment);
    if tokens.len() == 0 {
        let arguments: Vec<String> = Vec::new();
        assert(arguments.deep_view() =~= Seq::<Seq<char>>::empty());
        CommandSpec { program: String::new(), arguments }
    } else {
        let ghost all = tokens.deep_view();
        let program = tokens.remove(0);
        assert(tokens.deep_view() =~= all.drop_first());
        CommandSpec { program, arguments: tokens }
    }
}

/// Reads a line as a pipeline.
pub fn parse_line(line: &str) -> (pipeline: Vec<CommandSpec>)
    ensures
        pipeline.deep_view() == spec_parse(line@),
{
    let segments = split_segments(line);
    let mut pipeline: Vec<CommandSpec> = Vec::new();
    let n: usize = segments.len();
    let mut i: usize = 0;
    while i < n
        invariant
            i <= n,
            n == segments@.len(),
            segments.deep_view() == spec_segments(line@),
            pipeline@.len() == i,
            forall|k: int| 0 <= k < i ==> (#[trigger] pipeline@[k])@ == spec_command(spec_segments(line@)[k]),
        decreases n - i,
    {
        let command = parse_segment(segments[i].as_str());
        pipeline.push(command);
        i += 1;
    }
    pipeline
}

} // verus!
