//! The line parser: a state machine that reads the log one line at a time and
//! gives the posts in the order in which the log opens them.

use vstd::prelude::*;
use vstd::string::StrSliceExecFns;
use vstd::string::StringExecFns;
use crate::post::all_wf;
use crate::post::post_views;
use crate::post::Post;
use crate::post::PostView;
use crate::time::in_span;
use crate::time::is_in_span;
use crate::time::parse_epoch_seconds;
use crate::time::parsed_epoch_seconds;

verus! {

/// Why a log could not be read.
#[derive(Debug)]
pub enum ParseError {
    /// A line opens a record, but its timestamp token is missing or is no
    /// RFC 3339 time that can be rendered. `line_number` counts from 1.
    MalformedTimestamp { line_number: usize, line: String },
}

/// What the parser holds between two lines.
pub struct ParseState {
    /// The posts that are finished, oldest first.
    pub done: Seq<PostView>,
    /// The post that is being read, with one space after each of its lines.
    pub open: Option<PostView>,
}

/// A line opens a record where it begins with the marker and one space.
pub open spec fn is_record_start(line: Seq<char>) -> bool {
    line.len() >= 3 && line[0] == '@' && line[1] == '@' && line[2] == ' '
}

/// The first position at or after `from` that holds a space, or the length
/// of the line where there is none.
pub open spec fn token_end(line: Seq<char>, from: int) -> int
    decreases line.len() - from,
{
    if from >= line.len() || line[from] == ' ' {
        from
    } else {
        token_end(line, from + 1)
    }
}

/// The timestamp token of a record-start line: what stands between the
/// marker's space and the next space.
pub open spec fn timestamp_token(line: Seq<char>) -> Seq<char> {
    line.subrange(3, token_end(line, 3))
}

/// The time that a token stands for, where it parses and can be rendered.
pub open spec fn token_timestamp(token: Seq<char>) -> Option<int> {
    match parsed_epoch_seconds(token) {
        Some(t) => if in_span(t as int) {
            Some(t as int)
        } else {
            None
        },
        None => None,
    }
}

/// The parser before the first line.
pub open spec fn start_state() -> ParseState {
    ParseState { done: Seq::empty(), open: None }
}

/// Content with the space after its last line taken away.
pub open spec fn trimmed(content: Seq<char>) -> Seq<char> {
    if content.len() > 0 {
        content.drop_last()
    } else {
        content
    }
}

/// The posts of a state once the open one, if any, is finished.
pub open spec fn closed(state: ParseState) -> Seq<PostView> {
    match state.open {
        Some(post) => state.done.push(
            PostView { content: trimmed(post.content), timestamp: post.timestamp },
        ),
        None => state.done,
    }
}

/// The lines of one post joined by single spaces.
pub open spec fn joined(body: Seq<Seq<char>>) -> Seq<char>
    decreases body.len(),
{
    if body.len() == 0 {
        Seq::empty()
    } else if body.len() == 1 {
        body[0]
    } else {
        joined(body.drop_last()) + seq![' '] + body.last()
    }
}

/// The content buffer that the lines leave: each of them followed by one
/// space.
pub open spec fn buffered(body: Seq<Seq<char>>) -> Seq<char>
    decreases body.len(),
{
    if body.len() == 0 {
        Seq::empty()
    } else {
        buffered(body.drop_last()) + body.last() + seq![' ']
    }
}

/// One transition. A record-start line finishes the open post and opens a
/// new, empty one; any other line is added to the open post, followed by one
/// space, and is dropped where no post is open. `None` where a record-start
/// line carries no usable timestamp.
pub open spec fn step(state: ParseState, line: Seq<char>) -> Option<ParseState> {
    if is_record_start(line) {
        match token_timestamp(timestamp_token(line)) {
            Some(t) => Some(
                ParseState {
                    done: closed(state),
                    open: Some(PostView { content: Seq::empty(), timestamp: t }),
                },
            ),
            None => None,
        }
    } else {
        match state.open {
            Some(post) => Some(
                ParseState {
                    done: state.done,
                    open: Some(
                        PostView {
                            content: post.content + line + seq![' '],
                            timestamp: post.timestamp,
                        },
                    ),
                },
            ),
            None => Some(state),
        }
    }
}

/// The state after the first `n` lines, or the index of the first line with
/// a malformed timestamp.
pub open spec fn run(lines: Seq<Seq<char>>, n: nat) -> Result<ParseState, int>
    decreases n,
{
    if n == 0 {
        Ok(start_state())
    } else {
        match run(lines, (n - 1) as nat) {
            Ok(state) => match step(state, lines[n - 1]) {
                Some(next) => Ok(next),
                None => Err(n - 1),
            },
            Err(index) => Err(index),
        }
    }
}

/// The posts of a log, or the index of its first line with a malformed
/// timestamp.
pub open spec fn parsed(lines: Seq<Seq<char>>) -> Result<Seq<PostView>, int> {
    match run(lines, lines.len()) {
        Ok(state) => Ok(closed(state)),
        Err(index) => Err(index),
    }
}

/// The lines as sequences of characters.
pub open spec fn line_views(lines: Seq<String>) -> Seq<Seq<char>> {
    lines.map_values(|line: String| line@)
}

/// Whether the line opens a record.
pub fn starts_record(line: &str) -> (r: bool)
    ensures
        r == is_record_start(line@),
{
    let n = line.unicode_len();
    n >= 3 && line.get_char(0) == '@' && line.get_char(1) == '@' && line.get_char(2) == ' '
}

/// The timestamp token of a record-start line.
pub fn read_timestamp_token(line: &str) -> (r: &str)
    requires
        is_record_start(line@),
    ensures
        r@ == timestamp_token(line@),
{
    let n = line.unicode_len();
    let mut end: usize = 3;
    while end < n && line.get_char(end) != ' '
        invariant
            3 <= end <= n,
            n == line@.len(),
            token_end(line@, 3) == token_end(line@, end as int),
        decreases n - end,
    {
        end += 1;
    }
    line.substring_char(3, end)
}

/// The time that a token stands for: it must parse as RFC 3339 and lie in
/// the span that can be rendered.
pub fn read_token_timestamp(token: &str) -> (r: Option<i64>)
    ensures
        match r {
            Some(t) => token_timestamp(token@) == Some(t as int) && in_span(t as int),
            None => token_timestamp(token@) is None,
        },
{
    match parse_epoch_seconds(token) {
        Some(t) => if is_in_span(t) {
            Some(t)
        } else {
            None
        },
        None => None,
    }
}

/// Takes the space after the last line away from a content buffer.
pub fn trim_content(content: String) -> (r: String)
    ensures
        r@ == trimmed(content@),
{
    let n = content.as_str().unicode_len();
    if n > 0 {
        String::from_str(content.as_str().substring_char(0, n - 1))
    } else {
        content
    }
}

/// Reads a log. The posts come in the order in which the log opens them; a
/// post that is open when the log ends is finished like any other. The first
/// record-start line whose timestamp is malformed ends the run with an error
/// that names the line.
pub fn get_posts(lines: &Vec<String>) -> (r: Result<Vec<Post>, ParseError>)
    ensures
        match r {
            Ok(posts) => parsed(line_views(lines@)) == Ok::<Seq<PostView>, int>(
                post_views(posts@),
            ) && all_wf(posts@),
            Err(ParseError::MalformedTimestamp { line_number, line }) => {
                &&& 1 <= line_number <= lines.len()
                &&& parsed(line_views(lines@)) == Err::<Seq<PostView>, int>(line_number - 1)
                &&& line@ == lines[line_number - 1]@
            },
        },
{
    let ghost lv = line_views(lines@);
    let mut posts: Vec<Post> = Vec::new();
    let mut open_time: Option<i64> = None;
    let mut content: String = String::new();
    let mut i: usize = 0;
    assert(post_views(posts@) =~= Seq::<PostView>::empty());
    while i < lines.len()
        invariant
            i <= lines.len(),
            lv == line_views(lines@),
            all_wf(posts@),
            open_time matches Some(t) ==> in_span(t as int),
            run(lv, i as nat) == Ok::<ParseState, int>(
                ParseState {
                    done: post_views(posts@),
                    open: match open_time {
                        Some(t) => Some(PostView { content: content@, timestamp: t as int }),
                        None => None,
                    },
                },
            ),
        decreases lines.len() - i,
    {
        let line = lines[i].as_str();
        assert(lv[i as int] == line@);
        if starts_record(line) {
            match read_token_timestamp(read_timestamp_token(line)) {
                Some(t) => {
                    if let Some(previous) = open_time {
                        let ghost before = posts@;
                        posts.push(Post { content: trim_content(content), timestamp: previous });
                        assert(post_views(posts@) =~= post_views(before).push(posts@.last()@));
                    }
                    open_time = Some(t);
                    content = String::new();
                },
                None => {
                    assert(run(lv, (i + 1) as nat) == Err::<ParseState, int>(i as int));
                    proof {
                        lemma_run_error_stays(lv, (i + 1) as nat, lv.len());
                    }
                    return Err(
                        ParseError::MalformedTimestamp { line_number: i + 1, line: lines[i].clone() },
                    );
                },
            }
        } else {
            if open_time.is_some() {
                content.append(line);
                content.append(" ");
                proof {
                    reveal_strlit(" ");
                    assert(" "@ =~= seq![' ']);
                }
            }
        }
        i += 1;
    }
    if let Some(previous) = open_time {
        let ghost before = posts@;
        posts.push(Post { content: trim_content(content), timestamp: previous });
        assert(post_views(posts@) =~= post_views(before).push(posts@.last()@));
    }
    Ok(posts)
}

/// Once a line has stopped the parser, the lines after it change nothing.
pub proof fn lemma_run_error_stays(lines: Seq<Seq<char>>, n: nat, m: nat)
    requires
        n <= m,
        run(lines, n) is Err,
    ensures
        run(lines, m) == run(lines, n),
    decreases m,
{
    if n < m {
        lemma_run_error_stays(lines, n, (m - 1) as nat);
    }
}

/// A buffer without its last space is its lines joined by single spaces.
pub proof fn lemma_trimmed_buffer_is_joined(body: Seq<Seq<char>>)
    ensures
        trimmed(buffered(body)) == joined(body),
        body.len() > 0 ==> buffered(body).len() > 0,
    decreases body.len(),
{
    if body.len() == 0 {
    } else if body.len() == 1 {
        assert(buffered(body.drop_last()) =~= Seq::<char>::empty());
        assert(buffered(body) =~= body[0] + seq![' ']);
        assert(trimmed(buffered(body)) =~= body[0]);
    } else {
        let front = body.drop_last();
        lemma_trimmed_buffer_is_joined(front);
        assert(trimmed(buffered(front)) + seq![' '] =~= buffered(front));
        assert(trimmed(buffered(body)) =~= buffered(front) + body.last());
    }
}

/// What the parser has made of the first lines does not depend on the lines
/// that follow them.
pub proof fn lemma_run_ignores_later_lines(lines: Seq<Seq<char>>, more: Seq<Seq<char>>, n: nat)
    requires
        n <= lines.len(),
    ensures
        run(lines + more, n) == run(lines, n),
    decreases n,
{
    if n > 0 {
        lemma_run_ignores_later_lines(lines, more, (n - 1) as nat);
        assert((lines + more)[n - 1] == lines[n - 1]);
    }
}

/// While a post is open, lines that open no record only grow its buffer.
pub proof fn lemma_run_fills_open_post(
    head: Seq<Seq<char>>,
    body: Seq<Seq<char>>,
    done: Seq<PostView>,
    timestamp: int,
    k: nat,
)
    requires
        run(head, head.len()) == Ok::<ParseState, int>(
            ParseState {
                done,
                open: Some(PostView { content: Seq::empty(), timestamp }),
            },
        ),
        forall|i: int| 0 <= i < body.len() ==> !is_record_start(#[trigger] body[i]),
        k <= body.len(),
    ensures
        run(head + body, head.len() + k) == Ok::<ParseState, int>(
            ParseState {
                done,
                open: Some(PostView { content: buffered(body.take(k as int)), timestamp }),
            },
        ),
    decreases k,
{
    if k == 0 {
        lemma_run_ignores_later_lines(head, body, head.len());
        assert(body.take(0) =~= Seq::<Seq<char>>::empty());
    } else {
        lemma_run_fills_open_post(head, body, done, timestamp, (k - 1) as nat);
        let now = body.take(k as int);
        assert((head + body)[head.len() + k - 1] == body[k - 1]);
        assert(now.drop_last() =~= body.take(k - 1));
        assert(now.last() == body[k - 1]);
    }
}

/// A record-start line and the lines of its body add exactly one post, after
/// all the posts of the lines before them: its time is that of the
/// record-start line, its content the body's lines joined by single spaces.
/// This holds whether or not another record follows, so a post that is open
/// at the end of the log is not lost, and the posts come in the order of the
/// log.
pub proof fn lemma_record_appends_post(
    lines: Seq<Seq<char>>,
    start: Seq<char>,
    body: Seq<Seq<char>>,
)
    requires
        parsed(lines) is Ok,
        is_record_start(start),
        token_timestamp(timestamp_token(start)) is Some,
        forall|i: int| 0 <= i < body.len() ==> !is_record_start(#[trigger] body[i]),
    ensures
        parsed(lines + seq![start] + body) == Ok::<Seq<PostView>, int>(
            parsed(lines)->Ok_0.push(
                PostView {
                    content: joined(body),
                    timestamp: token_timestamp(timestamp_token(start))->Some_0,
                },
            ),
        ),
{
    let head = lines + seq![start];
    let timestamp = token_timestamp(timestamp_token(start))->Some_0;
    let before = run(lines, lines.len())->Ok_0;
    lemma_run_ignores_later_lines(lines, seq![start], lines.len());
    assert(head[head.len() - 1] == start);
    assert(run(head, head.len()) == Ok::<ParseState, int>(
        ParseState {
            done: closed(before),
            open: Some(PostView { content: Seq::empty(), timestamp }),
        },
    ));
    lemma_run_fills_open_post(head, body, closed(before), timestamp, body.len());
    assert(body.take(body.len() as int) =~= body);
    lemma_trimmed_buffer_is_joined(body);
}

/// A log without lines holds no posts.
pub proof fn lemma_empty_log_has_no_posts()
    ensures
        parsed(Seq::<Seq<char>>::empty()) == Ok::<Seq<PostView>, int>(Seq::empty()),
{
}

/// Lines before the first record-start line are dropped.
pub proof fn lemma_lines_before_first_record_are_dropped(lines: Seq<Seq<char>>, n: nat)
    requires
        n <= lines.len(),
        forall|i: int| 0 <= i < n ==> !is_record_start(#[trigger] lines[i]),
    ensures
        run(lines, n) == Ok::<ParseState, int>(start_state()),
    decreases n,
{
    if n > 0 {
        lemma_lines_before_first_record_are_dropped(lines, (n - 1) as nat);
    }
}

/// A line has a malformed timestamp where it opens a record and its token
/// stands for no time.
pub open spec fn is_malformed(line: Seq<char>) -> bool {
    is_record_start(line) && token_timestamp(timestamp_token(line)) is None
}

/// The parser stops at a line exactly where that line is the first one with a
/// malformed timestamp.
pub proof fn lemma_run_stops_at_first_malformed_line(lines: Seq<Seq<char>>, n: nat)
    requires
        n <= lines.len(),
    ensures
        match run(lines, n) {
            Ok(_) => forall|i: int| 0 <= i < n ==> !is_malformed(#[trigger] lines[i]),
            Err(index) => {
                &&& 0 <= index < n
                &&& is_malformed(lines[index])
                &&& forall|i: int| 0 <= i < index ==> !is_malformed(#[trigger] lines[i])
            },
        },
    decreases n,
{
    if n > 0 {
        lemma_run_stops_at_first_malformed_line(lines, (n - 1) as nat);
    }
}

/// A log is read with success exactly where none of its lines has a
/// malformed timestamp; otherwise the error names the first such line.
pub proof fn lemma_error_iff_malformed_line(lines: Seq<Seq<char>>)
    ensures
        parsed(lines) is Ok <==> forall|i: int|
            0 <= i < lines.len() ==> !is_malformed(#[trigger] lines[i]),
        parsed(lines) matches Err(index) ==> {
            &&& 0 <= index < lines.len()
            &&& is_malformed(lines[index])
            &&& forall|i: int| 0 <= i < index ==> !is_malformed(#[trigger] lines[i])
        },
{
    lemma_run_stops_at_first_malformed_line(lines, lines.len());
}

/// Reading a second log after a first one: while the second log, which opens
/// with a record, is read, the posts of the first stay in front, in their
/// order, and the rest of the state is that of the second log read alone.
pub proof fn lemma_run_after_log(a: Seq<Seq<char>>, b: Seq<Seq<char>>, k: nat)
    requires
        parsed(a) is Ok,
        1 <= k <= b.len(),
        is_record_start(b[0]),
        run(b, k) is Ok,
    ensures
        run(a + b, a.len() + k) == Ok::<ParseState, int>(
            ParseState {
                done: parsed(a)->Ok_0 + run(b, k)->Ok_0.done,
                open: run(b, k)->Ok_0.open,
            },
        ),
    decreases k,
{
    let first = parsed(a)->Ok_0;
    assert((a + b)[a.len() + k - 1] == b[k - 1]);
    if k == 1 {
        lemma_run_ignores_later_lines(a, b, a.len());
        assert(run(b, 0) == Ok::<ParseState, int>(start_state()));
        assert(first + Seq::<PostView>::empty() =~= first);
    } else {
        lemma_run_after_log(a, b, (k - 1) as nat);
        let alone = run(b, (k - 1) as nat)->Ok_0;
        let joint = ParseState { done: first + alone.done, open: alone.open };
        assert(closed(joint) =~= first + closed(alone));
    }
}

/// The posts of two logs read as one are the posts of the first followed by
/// the posts of the second, where the second opens with a record (or is
/// empty): posts keep the order of the log, and none is merged or lost.
pub proof fn lemma_parsed_logs_concatenate(a: Seq<Seq<char>>, b: Seq<Seq<char>>)
    requires
        parsed(a) is Ok,
        parsed(b) is Ok,
        b.len() == 0 || is_record_start(b[0]),
    ensures
        parsed(a + b) == Ok::<Seq<PostView>, int>(parsed(a)->Ok_0 + parsed(b)->Ok_0),
{
    let first = parsed(a)->Ok_0;
    if b.len() == 0 {
        assert(a + b =~= a);
        assert(first + Seq::<PostView>::empty() =~= first);
    } else {
        lemma_run_after_log(a, b, b.len());
        let alone = run(b, b.len())->Ok_0;
        let joint = ParseState { done: first + alone.done, open: alone.open };
        assert(closed(joint) =~= first + closed(alone));
    }
}

} // verus!
