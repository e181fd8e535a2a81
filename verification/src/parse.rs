//! The line parser: an input line is split into pipeline stages on the
//! delimiter `" | "` (a pipe surrounded by single spaces), and each stage is
//! split on runs of whitespace into a command name and its arguments.

use vstd::prelude::*;

verus! {

/// The whitespace characters on which stage text is tokenised.
pub open spec fn is_space_char(c: char) -> bool {
    c == ' ' || c == '\t' || c == '\n' || c == '\r'
}

/// The line, with leading and trailing whitespace removed.
pub open spec fn trimmed(s: Seq<char>) -> Seq<char>
    decreases s.len(),
{
    if s.len() == 0 {
        s
    } else if is_space_char(s[0]) {
        trimmed(s.skip(1))
    } else if is_space_char(s[s.len() - 1]) {
        trimmed(s.take(s.len() - 1))
    } else {
        s
    }
}

/// The three-character pipeline delimiter `" | "` begins at position `i`.
pub open spec fn delim_at(s: Seq<char>, i: int) -> bool {
    0 <= i && i + 3 <= s.len() && s[i] == ' ' && s[i + 1] == '|' && s[i + 2] == ' '
}

/// The stage texts of a line: the segments between occurrences of the
/// delimiter, leftmost first, delimiters non-overlapping.
pub open spec fn split_stages(s: Seq<char>) -> Seq<Seq<char>>
    decreases s.len(),
{
    if delim_at(s, 0) {
        seq![Seq::<char>::empty()] + split_stages(s.skip(3))
    } else if s.len() == 0 {
        seq![s]
    } else {
        let rest = split_stages(s.skip(1));
        seq![seq![s[0]] + rest[0]] + rest.skip(1)
    }
}

/// The non-empty tokens of a stage text, split on runs of whitespace.
pub open spec fn split_tokens(s: Seq<char>) -> Seq<Seq<char>>
    decreases s.len(),
{
    if s.len() == 0 {
        Seq::<Seq<char>>::empty()
    } else if is_space_char(s[0]) {
        split_tokens(s.skip(1))
    } else {
        let rest = split_tokens(s.skip(1));
        if s.len() > 1 && !is_space_char(s[1]) {
            seq![seq![s[0]] + rest[0]] + rest.skip(1)
        } else {
            seq![seq![s[0]]] + rest
        }
    }
}

/// A parsed stage, at the specification level: a command name (possibly
/// empty, for a stage with no tokens) and its arguments in order.
pub struct StageView {
    pub command: Seq<char>,
    pub args: Seq<Seq<char>>,
}

/// The stage parsed from one stage text: the first token is the command,
/// the remaining tokens are the arguments; a text with no tokens gives a
/// stage with an empty command, which dispatch treats as a no-op.
pub open spec fn stage_of_text(text: Seq<char>) -> StageView {
    let toks = split_tokens(text);
    if toks.len() == 0 {
        StageView { command: Seq::<char>::empty(), args: Seq::<Seq<char>>::empty() }
    } else {
        StageView { command: toks[0], args: toks.skip(1) }
    }
}

/// The stages parsed from a raw input line: the line is trimmed, split on
/// the delimiter, and each segment is tokenised.
pub open spec fn parse_line_spec(line: Seq<char>) -> Seq<StageView> {
    split_stages(trimmed(line)).map_values(|t: Seq<char>| stage_of_text(t))
}

/// One parsed pipeline stage.
pub struct Stage {
    pub command: String,
    pub args: Vec<String>,
}

impl View for Stage {
    type V = StageView;

    open spec fn view(&self) -> StageView {
        StageView { command: self.command@, args: self.args.deep_view() }
    }
}

/// The views of a sequence of owned strings.
pub open spec fn views_of(v: Seq<String>) -> Seq<Seq<char>> {
    v.map_values(|s: String| s@)
}

/// The views of a sequence of parsed stages.
pub open spec fn stage_views_of(v: Seq<Stage>) -> Seq<StageView> {
    v.map_values(|st: Stage| st@)
}

/// Every line splits into at least one stage text.
proof fn lemma_split_stages_len(s: Seq<char>)
    ensures
        split_stages(s).len() >= 1,
    decreases s.len(),
{
    if delim_at(s, 0) {
    } else if s.len() == 0 {
    } else {
        lemma_split_stages_len(s.skip(1));
    }
}

fn is_space(c: char) -> (b: bool)
    ensures
        b == is_space_char(c),
{
    c == ' ' || c == '\t' || c == '\n' || c == '\r'
}

/// The line with leading and trailing whitespace removed.
pub fn trim_line(s: &str) -> (r: String)
    ensures
        r@ == trimmed(s@),
    decreases s@.len(),
{
    let n = s.unicode_len();
    if n == 0 {
        String::from_str(s)
    } else if is_space(s.get_char(0)) {
        trim_line(s.substring_char(1, n))
    } else if is_space(s.get_char(n - 1)) {
        trim_line(s.substring_char(0, n - 1))
    } else {
        String::from_str(s)
    }
}

/// The stage texts of a line, split on the `" | "` delimiter.
pub fn split_stages_exec(s: &str) -> (r: Vec<String>)
    ensures
        views_of(r@) == split_stages(s@),
    decreases s@.len(),
{
    let n = s.unicode_len();
    if n >= 3 && s.get_char(0) == ' ' && s.get_char(1) == '|' && s.get_char(2) == ' ' {
        let mut rest = split_stages_exec(s.substring_char(3, n));
        let mut r: Vec<String> = Vec::new();
        r.push(String::new());
        r.append(&mut rest);
        proof {
            assert(views_of(r@) =~~= split_stages(s@));
        }
        r
    } else if n == 0 {
        let mut r: Vec<String> = Vec::new();
        r.push(String::from_str(s));
        proof {
            assert(views_of(r@) =~~= split_stages(s@));
        }
        r
    } else {
        let head = s.substring_char(0, 1);
        let mut rest = split_stages_exec(s.substring_char(1, n));
        proof {
            lemma_split_stages_len(s@.skip(1));
        }
        let first = rest.remove(0);
        let combined = String::from_str(head).concat(first.as_str());
        rest.insert(0, combined);
        proof {
            assert(views_of(rest@) =~~= split_stages(s@));
        }
        rest
    }
}

/// Every stage text tokenises to a first token that is non-empty.
proof fn lemma_split_tokens_first(s: Seq<char>)
    requires
        s.len() > 0,
        !is_space_char(s[0]),
    ensures
        split_tokens(s).len() >= 1,
        split_tokens(s)[0].len() >= 1,
        split_tokens(s)[0][0] == s[0],
    decreases s.len(),
{
    if s.len() > 1 && !is_space_char(s[1]) {
        lemma_split_tokens_first(s.skip(1));
    }
}

/// The tokens of a stage text, split on runs of whitespace.
pub fn split_tokens_exec(s: &str) -> (r: Vec<String>)
    ensures
        views_of(r@) == split_tokens(s@),
    decreases s@.len(),
{
    let n = s.unicode_len();
    if n == 0 {
        let r: Vec<String> = Vec::new();
        proof {
            assert(views_of(r@) =~~= split_tokens(s@));
        }
        r
    } else if is_space(s.get_char(0)) {
        split_tokens_exec(s.substring_char(1, n))
    } else {
        let head = s.substring_char(0, 1);
        let mut rest = split_tokens_exec(s.substring_char(1, n));
        if n > 1 && !is_space(s.get_char(1)) {
            proof {
                lemma_split_tokens_first(s@.skip(1));
            }
            let first = rest.remove(0);
            let combined = String::from_str(head).concat(first.as_str());
            rest.insert(0, combined);
            proof {
                assert(views_of(rest@) =~~= split_tokens(s@));
            }
            rest
        } else {
            rest.insert(0, String::from_str(head));
            proof {
                assert(views_of(rest@) =~~= split_tokens(s@));
            }
            rest
        }
    }
}

/// The stage parsed from one stage text.
pub fn parse_stage(text: &str) -> (st: Stage)
    ensures
        st@ == stage_of_text(text@),
{
    let mut toks = split_tokens_exec(text);
    if toks.len() == 0 {
        let st = Stage { command: String::new(), args: Vec::new() };
        proof {
            assert(st@.args =~= stage_of_text(text@).args);
        }
        st
    } else {
        let command = toks.remove(0);
        let st = Stage { command, args: toks };
        proof {
            assert(st@.args =~= stage_of_text(text@).args);
        }
        st
    }
}

/// Tokens re-joined with single spaces.
pub open spec fn join_tokens(toks: Seq<Seq<char>>) -> Seq<char>
    decreases toks.len(),
{
    if toks.len() == 0 {
        Seq::<char>::empty()
    } else if toks.len() == 1 {
        toks[0]
    } else {
        toks[0] + seq![' '] + join_tokens(toks.skip(1))
    }
}

/// A stage re-joined: its command and arguments with single spaces between.
pub open spec fn stage_text_of(st: StageView) -> Seq<char> {
    join_tokens(seq![st.command] + st.args)
}

/// Stages re-joined with the `" | "` delimiter between.
pub open spec fn join_stages_text(stages: Seq<StageView>) -> Seq<char>
    decreases stages.len(),
{
    if stages.len() == 0 {
        Seq::<char>::empty()
    } else if stages.len() == 1 {
        stage_text_of(stages[0])
    } else {
        stage_text_of(stages[0]) + seq![' ', '|', ' '] + join_stages_text(stages.skip(1))
    }
}

/// Every whitespace in the text is a single plain space: no tab or line
/// break, and no two whitespace characters adjacent.
pub open spec fn single_spaced(s: Seq<char>) -> bool {
    forall|i: int|
        0 <= i < s.len() && is_space_char(#[trigger] s[i]) ==> s[i] == ' ' && (i + 1 < s.len()
            ==> !is_space_char(s[i + 1]))
}

/// Parses a raw input line into its ordered pipeline stages.
pub fn parse_line(line: &str) -> (r: Vec<Stage>)
    ensures
        stage_views_of(r@) == parse_line_spec(line@),
{
    let t = trim_line(line);
    let texts = split_stages_exec(t.as_str());
    let mut r: Vec<Stage> = Vec::new();
    let mut i: usize = 0;
    while i < texts.len()
        invariant
            i <= texts.len(),
            views_of(texts@) == split_stages(trimmed(line@)),
            r@.len() == i,
            forall|j: int| 0 <= j < i ==> r@[j]@ == stage_of_text(texts@[j]@),
        decreases texts.len() - i,
    {
        let st = parse_stage(texts[i].as_str());
        r.push(st);
        i += 1;
    }
    proof {
        assert(stage_views_of(r@) =~= parse_line_spec(line@));
    }
    r
}

/// Appending one token appends one space and the token to the joined text.
proof fn lemma_join_tokens_snoc(toks: Seq<Seq<char>>, x: Seq<char>)
    ensures
        join_tokens(toks.push(x)) == if toks.len() == 0 {
            x
        } else {
            join_tokens(toks) + seq![' '] + x
        },
    decreases toks.len(),
{
    let p = toks.push(x);
    if toks.len() == 0 {
        assert(p.len() == 1);
        assert(join_tokens(p) == p[0]);
    } else if toks.len() == 1 {
        assert(p.skip(1) =~~= seq![x]);
        assert(join_tokens(p) == p[0] + seq![' '] + join_tokens(seq![x]));
    } else {
        lemma_join_tokens_snoc(toks.skip(1), x);
        assert(p.skip(1) =~~= toks.skip(1).push(x));
        assert(join_tokens(p) == p[0] + seq![' '] + join_tokens(toks.skip(1).push(x)));
        assert(p[0] + seq![' '] + (join_tokens(toks.skip(1)) + seq![' '] + x) =~= (toks[0]
            + seq![' '] + join_tokens(toks.skip(1))) + seq![' '] + x);
    }
}

/// Appending one stage appends one delimiter and the stage's text.
proof fn lemma_join_stages_snoc(stages: Seq<StageView>, x: StageView)
    ensures
        join_stages_text(stages.push(x)) == if stages.len() == 0 {
            stage_text_of(x)
        } else {
            join_stages_text(stages) + seq![' ', '|', ' '] + stage_text_of(x)
        },
    decreases stages.len(),
{
    let p = stages.push(x);
    if stages.len() == 0 {
        assert(p.len() == 1);
        assert(join_stages_text(p) == stage_text_of(p[0]));
    } else if stages.len() == 1 {
        assert(p.skip(1) =~~= seq![x]);
        assert(join_stages_text(p) == stage_text_of(p[0]) + seq![' ', '|', ' ']
            + join_stages_text(seq![x]));
    } else {
        lemma_join_stages_snoc(stages.skip(1), x);
        assert(p.skip(1) =~~= stages.skip(1).push(x));
        assert(join_stages_text(p) == stage_text_of(p[0]) + seq![' ', '|', ' ']
            + join_stages_text(stages.skip(1).push(x)));
        assert(stage_text_of(p[0]) + seq![' ', '|', ' '] + (join_stages_text(stages.skip(1))
            + seq![' ', '|', ' '] + stage_text_of(x)) =~= (stage_text_of(stages[0]) + seq![
            ' ',
            '|',
            ' ',
        ] + join_stages_text(stages.skip(1))) + seq![' ', '|', ' '] + stage_text_of(x));
    }
}

/// One stage's text re-joined: its command and arguments with single spaces.
pub fn stage_text(st: &Stage) -> (r: String)
    ensures
        r@ == stage_text_of(st@),
{
    let ghost all: Seq<Seq<char>> = seq![st@.command] + st@.args;
    let mut r = st.command.clone();
    proof {
        assert(all.take(1) =~= seq![st@.command]);
        assert(join_tokens(all.take(1)) == r@);
    }
    let mut i: usize = 0;
    while i < st.args.len()
        invariant
            i <= st.args.len(),
            all == seq![st@.command] + st@.args,
            all.len() == 1 + st.args@.len(),
            r@ == join_tokens(all.take(i + 1)),
        decreases st.args.len() - i,
    {
        proof {
            reveal_strlit(" ");
            lemma_join_tokens_snoc(all.take(i + 1), all[i + 1]);
            assert(all.take(i + 2) =~~= all.take(i + 1).push(all[i + 1]));
            assert(all[i + 1] == st.args@[i as int]@);
        }
        r.append(" ");
        r.append(st.args[i].as_str());
        i += 1;
    }
    proof {
        assert(all.take(st.args@.len() as int + 1) =~~= all);
    }
    r
}

/// The whole line re-joined: stage texts with the `" | "` delimiter
/// between, the whitespace-normalised form of what was parsed.
pub fn join_line(stages: &Vec<Stage>) -> (r: String)
    ensures
        r@ == join_stages_text(stage_views_of(stages@)),
{
    let ghost all: Seq<StageView> = stage_views_of(stages@);
    let mut r = String::new();
    let mut i: usize = 0;
    while i < stages.len()
        invariant
            i <= stages.len(),
            all == stage_views_of(stages@),
            all.len() == stages@.len(),
            r@ == join_stages_text(all.take(i as int)),
        decreases stages.len() - i,
    {
        proof {
            reveal_strlit(" | ");
            lemma_join_stages_snoc(all.take(i as int), all[i as int]);
            assert(all.take(i + 1) =~~= all.take(i as int).push(all[i as int]));
            assert(all[i as int] == stages@[i as int]@);
            assert(join_stages_text(all.take(0)) == Seq::<char>::empty());
        }
        if i > 0 {
            r.append(" | ");
        }
        let t = stage_text(&stages[i]);
        r.append(t.as_str());
        i += 1;
    }
    proof {
        assert(all.take(stages@.len() as int) =~~= all);
    }
    r
}

/// Trimming leaves no whitespace at either end.
proof fn lemma_trimmed_ends(s: Seq<char>)
    ensures
        trimmed(s).len() > 0 ==> !is_space_char(trimmed(s)[0]) && !is_space_char(
            trimmed(s)[trimmed(s).len() - 1],
        ),
    decreases s.len(),
{
    if s.len() == 0 {
    } else if is_space_char(s[0]) {
        lemma_trimmed_ends(s.skip(1));
    } else if is_space_char(s[s.len() - 1]) {
        lemma_trimmed_ends(s.take(s.len() - 1));
    }
}

/// Single spacing carries over to any suffix.
proof fn lemma_single_spaced_skip(t: Seq<char>, k: int)
    requires
        single_spaced(t),
        0 <= k <= t.len(),
    ensures
        single_spaced(t.skip(k)),
{
    assert forall|i: int|
        0 <= i < t.skip(k).len() && is_space_char(#[trigger] t.skip(k)[i]) implies t.skip(k)[i]
        == ' ' && (i + 1 < t.skip(k).len() ==> !is_space_char(t.skip(k)[i + 1])) by {
        assert(t.skip(k)[i] == t[i + k]);
        if i + 1 < t.skip(k).len() {
            assert(t.skip(k)[i + 1] == t[i + k + 1]);
        }
    }
}

/// Single spacing carries over to any prefix.
proof fn lemma_single_spaced_take(t: Seq<char>, k: int)
    requires
        single_spaced(t),
        0 <= k <= t.len(),
    ensures
        single_spaced(t.take(k)),
{
    assert forall|i: int|
        0 <= i < t.take(k).len() && is_space_char(#[trigger] t.take(k)[i]) implies t.take(k)[i]
        == ' ' && (i + 1 < t.take(k).len() ==> !is_space_char(t.take(k)[i + 1])) by {
        assert(t.take(k)[i] == t[i]);
        if i + 1 < t.take(k).len() {
            assert(t.take(k)[i + 1] == t[i + 1]);
        }
    }
}

/// Prepending a character to the first token prepends it to the joined text.
proof fn lemma_join_tokens_prepend(c: char, toks: Seq<Seq<char>>)
    requires
        toks.len() >= 1,
    ensures
        join_tokens(seq![seq![c] + toks[0]] + toks.skip(1)) == seq![c] + join_tokens(toks),
{
    let s = seq![seq![c] + toks[0]] + toks.skip(1);
    if toks.len() == 1 {
        assert(s.len() == 1);
        assert(join_tokens(s) == s[0]);
        assert(s[0] =~= seq![c] + join_tokens(toks));
    } else {
        assert(s.skip(1) =~= toks.skip(1));
        assert(join_tokens(s) == s[0] + seq![' '] + join_tokens(toks.skip(1)));
        assert(s[0] + seq![' '] + join_tokens(toks.skip(1)) =~= seq![c] + (toks[0] + seq![' ']
            + join_tokens(toks.skip(1))));
    }
}

/// Tokenising and re-joining an already single-spaced text gives it back.
proof fn lemma_tokens_round_trip(t: Seq<char>)
    requires
        single_spaced(t),
        t.len() > 0 ==> !is_space_char(t[0]) && !is_space_char(t[t.len() - 1]),
    ensures
        join_tokens(split_tokens(t)) == t,
    decreases t.len(),
{
    if t.len() == 0 {
        assert(join_tokens(split_tokens(t)) =~= t);
    } else {
        let c = t[0];
        let t1 = t.skip(1);
        if t.len() == 1 {
            assert(split_tokens(t1) =~~= Seq::<Seq<char>>::empty());
            assert(split_tokens(t) =~~= seq![seq![c]]);
            assert(join_tokens(split_tokens(t)) =~= t);
        } else if !is_space_char(t[1]) {
            lemma_single_spaced_skip(t, 1);
            assert(t1[0] == t[1] && t1[t1.len() - 1] == t[t.len() - 1]);
            lemma_tokens_round_trip(t1);
            lemma_split_tokens_first(t1);
            lemma_join_tokens_prepend(c, split_tokens(t1));
            assert(seq![c] + t1 =~= t);
        } else {
            // t[1] is the single space between the first token `[c]` and the rest.
            assert(t[1] == ' ');
            assert(t.len() > 2) by {
                assert(!is_space_char(t[t.len() - 1]));
            }
            assert(!is_space_char(t[2]));
            let t2 = t.skip(2);
            lemma_single_spaced_skip(t, 2);
            assert(t2[0] == t[2] && t2[t2.len() - 1] == t[t.len() - 1]);
            lemma_tokens_round_trip(t2);
            lemma_split_tokens_first(t2);
            let toks2 = split_tokens(t2);
            assert(t1.skip(1) =~= t2);
            assert(split_tokens(t1) == toks2);
            assert(split_tokens(t) == seq![seq![c]] + toks2);
            let s = seq![seq![c]] + toks2;
            assert(s.skip(1) =~= toks2);
            assert(join_tokens(s) == seq![c] + seq![' '] + join_tokens(toks2));
            assert(seq![c] + seq![' '] + t2 =~= t);
        }
    }
}

/// Re-joining a parsed stage gives the joined form of its text's tokens.
proof fn lemma_stage_text_of_parse(x: Seq<char>)
    ensures
        stage_text_of(stage_of_text(x)) == join_tokens(split_tokens(x)),
{
    let toks = split_tokens(x);
    if toks.len() == 0 {
        let s = seq![Seq::<char>::empty()] + Seq::<Seq<char>>::empty();
        assert(s.len() == 1);
        assert(stage_text_of(stage_of_text(x)) == s[0]);
        assert(s[0] =~= join_tokens(toks));
    } else {
        assert(seq![toks[0]] + toks.skip(1) =~= toks);
    }
}

/// The position of the leftmost delimiter, if the text holds one.
spec fn find_delim(s: Seq<char>) -> Option<int>
    decreases s.len(),
{
    if delim_at(s, 0) {
        Some(0)
    } else if s.len() == 0 {
        None
    } else {
        match find_delim(s.skip(1)) {
            Some(i) => Some(i + 1),
            None => None,
        }
    }
}

/// Splitting on the delimiter cuts at the leftmost occurrence and goes on
/// behind it; a text without a delimiter is one single stage text.
proof fn lemma_split_stages_at_delim(s: Seq<char>)
    ensures
        match find_delim(s) {
            None => split_stages(s) == seq![s],
            Some(i) => 0 <= i && delim_at(s, i) && split_stages(s) == seq![s.take(i)]
                + split_stages(s.skip(i + 3)),
        },
    decreases s.len(),
{
    if delim_at(s, 0) {
        assert(s.take(0) =~= Seq::<char>::empty());
        assert(seq![s.take(0)] + split_stages(s.skip(3)) =~= seq![Seq::<char>::empty()]
            + split_stages(s.skip(3)));
    } else if s.len() == 0 {
    } else {
        lemma_split_stages_at_delim(s.skip(1));
        let rest = split_stages(s.skip(1));
        match find_delim(s.skip(1)) {
            None => {
                assert(seq![seq![s[0]] + rest[0]] + rest.skip(1) =~~= seq![s]);
            },
            Some(i) => {
                assert(delim_at(s.skip(1), i));
                assert(s.skip(1)[i] == s[i + 1]);
                assert(s.skip(1)[i + 1] == s[i + 2]);
                assert(s.skip(1)[i + 2] == s[i + 3]);
                assert(delim_at(s, i + 1));
                assert(rest == seq![s.skip(1).take(i)] + split_stages(s.skip(1).skip(i + 3)));
                assert(rest[0] == s.skip(1).take(i));
                assert(seq![s[0]] + s.skip(1).take(i) =~= s.take(i + 1));
                assert(s.skip(1).skip(i + 3) =~= s.skip(i + 4));
                assert(rest.skip(1) =~= split_stages(s.skip(1).skip(i + 3)));
                assert(seq![seq![s[0]] + rest[0]] + rest.skip(1) =~~= seq![s.take(i + 1)]
                    + split_stages(s.skip(i + 4)));
            },
        }
    }
}

/// Splitting a single-spaced text on the delimiter and re-joining each
/// stage's tokens gives the text back.
proof fn lemma_stages_round_trip(t: Seq<char>)
    requires
        single_spaced(t),
        t.len() > 0 ==> !is_space_char(t[0]) && !is_space_char(t[t.len() - 1]),
    ensures
        join_stages_text(split_stages(t).map_values(|x: Seq<char>| stage_of_text(x))) == t,
    decreases t.len(),
{
    let f = |x: Seq<char>| stage_of_text(x);
    lemma_split_stages_at_delim(t);
    match find_delim(t) {
        None => {
            assert(split_stages(t).map_values(f) =~= seq![stage_of_text(t)]);
            lemma_stage_text_of_parse(t);
            lemma_tokens_round_trip(t);
        },
        Some(i) => {
            // The delimiter's own space cannot touch another whitespace, so
            // the head stage text and the tail keep clean ends.
            assert(t.len() > 0);
            assert(i >= 1) by {
                assert(!is_space_char(t[0]));
            }
            let head = t.take(i);
            let tail = t.skip(i + 3);
            assert(!is_space_char(t[i - 1])) by {
                if is_space_char(t[i - 1]) {
                    assert(!is_space_char(t[i]));
                }
            }
            assert(i + 3 < t.len()) by {
                assert(!is_space_char(t[t.len() - 1]));
            }
            assert(!is_space_char(t[i + 3])) by {
                assert(is_space_char(t[i + 2]));
            }
            lemma_single_spaced_take(t, i);
            lemma_single_spaced_skip(t, i + 3);
            assert(head[0] == t[0] && head[head.len() - 1] == t[i - 1]);
            assert(tail[0] == t[i + 3] && tail[tail.len() - 1] == t[t.len() - 1]);
            lemma_stages_round_trip(tail);
            lemma_stage_text_of_parse(head);
            lemma_tokens_round_trip(head);
            let m = split_stages(t).map_values(f);
            lemma_split_stages_len(tail);
            assert(m =~= seq![stage_of_text(head)] + split_stages(tail).map_values(f));
            assert(m.len() >= 2);
            assert(m.skip(1) =~= split_stages(tail).map_values(f));
            assert(join_stages_text(m) == stage_text_of(m[0]) + seq![' ', '|', ' ']
                + join_stages_text(m.skip(1)));
            assert(head + seq![' ', '|', ' '] + tail =~= t);
        },
    }
}

/// Parsing a line and re-joining the stages — command and arguments with
/// single spaces, stages with the `" | "` delimiter — reproduces the
/// trimmed form of the line, whenever that trimmed form is already
/// single-spaced (in any other line, the whitespace that parsing collapses
/// is lost, and re-joining gives the collapsed form instead).
pub proof fn theorem_parse_join_round_trip(line: Seq<char>)
    requires
        single_spaced(trimmed(line)),
    ensures
        join_stages_text(parse_line_spec(line)) == trimmed(line),
{
    lemma_trimmed_ends(line);
    lemma_stages_round_trip(trimmed(line));
    assert(parse_line_spec(line) =~= split_stages(trimmed(line)).map_values(
        |x: Seq<char>| stage_of_text(x),
    ));
}

} // verus!
