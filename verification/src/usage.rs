//! The report on the tokens that sessions have used.
use vstd::prelude::*;
use vstd::string::*;

use crate::chart::{usage_chart_bar, TokenUsage};
use crate::options::UsageOptions;
use crate::order::{stable_order, Ranked};
use crate::sessions::SessionUsage;
use crate::text::{
    blank, chars_of, decimal_text, push_grouped, push_pad_end, push_pad_start, push_repeated,
    text_between, trim,
};

#[allow(unused_imports)]
use crate::options::OptionsView;
#[allow(unused_imports)]
use crate::sessions::SessionView;

verus! {

/// A count with its digits in groups of three.
pub fn format_count(value: u64) -> (r: String)
    ensures
        r@ == crate::text::grouped(crate::text::decimal(value as nat)),
{
    let digits = chars_of(decimal_text(value).as_str());
    let mut r = String::new();
    push_grouped(&mut r, &digits, digits.len());
    assert(digits@.take(digits@.len() as int) == digits@);
    r
}

/// The trimmed text, or a dash where it is blank.
pub open spec fn dashed(value: Seq<char>) -> Seq<char> {
    if crate::text::is_blank(value) {
        "-"@
    } else {
        crate::text::trimmed(value)
    }
}

pub fn empty_dash(value: &str) -> (r: String)
    ensures
        r@ == dashed(value@),
{
    if blank(value) {
        "-".to_string()
    } else {
        trim(value).to_string()
    }
}

/// The trimmed text; where it has more than `max_len` characters, the first `max_len - 3` of them and
/// an ellipsis.
pub open spec fn shortened(value: Seq<char>, max_len: nat) -> Seq<char> {
    let t = crate::text::trimmed(value);
    let keep = if max_len < 3 {
        0
    } else {
        max_len - 3
    };
    if t.len() <= max_len {
        t
    } else {
        t.take(keep) + "..."@
    }
}

pub fn truncate(value: &str, max_len: usize) -> (r: String)
    ensures
        r@ == shortened(value@, max_len as nat),
{
    let chars = chars_of(trim(value));
    if chars.len() <= max_len {
        return trim(value).to_string();
    }
    let keep: usize = if max_len < 3 {
        0
    } else {
        max_len - 3
    };
    assert(chars@.subrange(0, keep as int) == chars@.take(keep as int));
    text_between(&chars, 0, keep).concat("...")
}

/// The columns of a line of the table.
pub struct Columns {
    started: String,
    model: String,
    counts: [String; 5],
    name: String,
}

#[verifier::ext_equal]
pub struct ColumnsView {
    pub started: Seq<char>,
    pub model: Seq<char>,
    pub input: Seq<char>,
    pub cached: Seq<char>,
    pub output: Seq<char>,
    pub reasoning: Seq<char>,
    pub total: Seq<char>,
    pub name: Seq<char>,
}

impl View for Columns {
    type V = ColumnsView;

    closed spec fn view(&self) -> ColumnsView {
        ColumnsView {
            started: self.started@,
            model: self.model@,
            input: self.counts@[0]@,
            cached: self.counts@[1]@,
            output: self.counts@[2]@,
            reasoning: self.counts@[3]@,
            total: self.counts@[4]@,
            name: self.name@,
        }
    }
}

/// A line of the table: names to the left, counts to the right of their columns.
pub open spec fn table_line(c: ColumnsView) -> Seq<char> {
    crate::text::pad_end(c.started, 16) + " "@ + crate::text::pad_end(c.model, 10) + " "@
        + crate::text::pad_start(c.input, 12) + " "@ + crate::text::pad_start(c.cached, 12) + " "@
        + crate::text::pad_start(c.output, 12) + " "@ + crate::text::pad_start(c.reasoning, 12)
        + " "@ + crate::text::pad_start(c.total, 12) + "  "@ + c.name
}

fn push_columns(c: &Columns) -> (r: String)
    ensures
        r@ == table_line(c@),
{
    let mut r = String::new();
    push_pad_end(&mut r, c.started.as_str(), 16);
    r.append(" ");
    push_pad_end(&mut r, c.model.as_str(), 10);
    r.append(" ");
    push_pad_start(&mut r, c.counts[0].as_str(), 12);
    r.append(" ");
    push_pad_start(&mut r, c.counts[1].as_str(), 12);
    r.append(" ");
    push_pad_start(&mut r, c.counts[2].as_str(), 12);
    r.append(" ");
    push_pad_start(&mut r, c.counts[3].as_str(), 12);
    r.append(" ");
    push_pad_start(&mut r, c.counts[4].as_str(), 12);
    r.append("  ");
    r.append(c.name.as_str());
    assert(r@ =~= table_line(c@));
    r
}

/// The head of the table.
pub open spec fn header_line() -> Seq<char> {
    table_line(
        ColumnsView {
            started: "Started"@,
            model: "Model"@,
            input: "Input"@,
            cached: "Cached"@,
            output: "Output"@,
            reasoning: "Reasoning"@,
            total: "Total"@,
            name: "Session"@,
        },
    )
}

fn header() -> (r: String)
    ensures
        r@ == header_line(),
{
    push_columns(
        &Columns {
            started: "Started".to_string(),
            model: "Model".to_string(),
            counts: [
                "Input".to_string(),
                "Cached".to_string(),
                "Output".to_string(),
                "Reasoning".to_string(),
                "Total".to_string(),
            ],
            name: "Session".to_string(),
        },
    )
}

/// When a session started: the given text, or a dash where that is not known.
pub open spec fn started_text(s: SessionView, started: Seq<char>) -> Seq<char> {
    if s.started_at is None {
        "-"@
    } else {
        started
    }
}

/// What a session is called: its directory, or its id where that is blank.
pub open spec fn session_name(s: SessionView) -> Seq<char> {
    if crate::text::is_blank(s.cwd) {
        s.id
    } else {
        s.cwd
    }
}

/// A count in its column.
pub open spec fn count_text(n: u64) -> Seq<char> {
    crate::text::grouped(crate::text::decimal(n as nat))
}

/// The columns of a session; dashes stand for counts that it does not have.
pub open spec fn session_columns(s: SessionView, started: Seq<char>) -> ColumnsView {
    let model = shortened(dashed(s.model), 10);
    let name = shortened(session_name(s), 42);
    match s.total {
        Some(t) => ColumnsView {
            started: started_text(s, started),
            model,
            input: count_text(t.input_tokens),
            cached: count_text(t.cached_input_tokens),
            output: count_text(t.output_tokens),
            reasoning: count_text(t.reasoning_output_tokens),
            total: count_text(t.total_tokens),
            name,
        },
        None => ColumnsView {
            started: started_text(s, started),
            model,
            input: "-"@,
            cached: "-"@,
            output: "-"@,
            reasoning: "-"@,
            total: "-"@,
            name,
        },
    }
}

fn started_of(session: &SessionUsage, started: &str) -> (r: String)
    ensures
        r@ == started_text(session@, started@),
{
    match session.started_at {
        Some(_) => started.to_string(),
        None => "-".to_string(),
    }
}

/// The line of a session in the table.
pub fn session_line(session: &SessionUsage, started: &str) -> (r: String)
    ensures
        r@ == table_line(session_columns(session@, started@)),
{
    let model = empty_dash(session.model.as_str());
    let name = if blank(session.cwd.as_str()) {
        session.id.as_str()
    } else {
        session.cwd.as_str()
    };
    let counts = match &session.total {
        Some(total) => [
            format_count(total.input_tokens),
            format_count(total.cached_input_tokens),
            format_count(total.output_tokens),
            format_count(total.reasoning_output_tokens),
            format_count(total.total_tokens),
        ],
        None => [
            "-".to_string(),
            "-".to_string(),
            "-".to_string(),
            "-".to_string(),
            "-".to_string(),
        ],
    };
    let columns = Columns {
        started: started_of(session, started),
        model: truncate(model.as_str(), 10),
        counts,
        name: truncate(name, 42),
    };
    assert(columns@ =~= session_columns(session@, started@));
    push_columns(&columns)
}

/// The greatest total of the sessions, 0 where none has one.
pub open spec fn greatest_total(sessions: Seq<SessionView>) -> u64
    decreases sessions.len(),
{
    if sessions.len() == 0 {
        0
    } else {
        let best = greatest_total(sessions.drop_last());
        match sessions.last().total {
            Some(t) => if t.total_tokens > best {
                t.total_tokens
            } else {
                best
            },
            None => best,
        }
    }
}

/// The line of a session in the chart.
pub open spec fn chart_line(
    s: SessionView,
    started: Seq<char>,
    t: TokenUsage,
    max_total: u64,
) -> Seq<char> {
    crate::text::pad_end(started_text(s, started), 16) + " ["@ + t.bar(max_total, 48) + "] "@
        + count_text(t.total_tokens)
}

/// The lines of the sessions that have counts.
pub open spec fn chart_rows(
    sessions: Seq<SessionView>,
    started: Seq<Seq<char>>,
    max_total: u64,
) -> Seq<Seq<char>>
    decreases sessions.len(),
{
    if sessions.len() == 0 {
        Seq::empty()
    } else {
        let rows = chart_rows(sessions.drop_last(), started, max_total);
        match sessions.last().total {
            Some(t) => rows.push(
                chart_line(sessions.last(), started[sessions.len() - 1], t, max_total),
            ),
            None => rows,
        }
    }
}

/// The chart: nothing where there is nothing to show.
pub open spec fn chart_lines(sessions: Seq<SessionView>, started: Seq<Seq<char>>) -> Seq<Seq<char>> {
    let max_total = greatest_total(sessions);
    if max_total == 0 {
        Seq::empty()
    } else {
        seq![
            ""@,
            "Token composition"@,
            "C=cached input  I=uncached input  O=output  R=reasoning"@,
        ] + chart_rows(sessions, started, max_total)
    }
}

/// The lines of the sessions in the table.
pub open spec fn table_rows(sessions: Seq<SessionView>, started: Seq<Seq<char>>) -> Seq<Seq<char>> {
    Seq::new(
        sessions.len(),
        |i: int| table_line(session_columns(sessions[i], started[i])),
    )
}

/// The table, and the chart where it is wanted.
pub open spec fn report_lines(
    sessions: Seq<SessionView>,
    started: Seq<Seq<char>>,
    show_chart: bool,
) -> Seq<Seq<char>> {
    seq![header_line(), crate::text::repeated('-', 118)] + table_rows(sessions, started) + (
    if show_chart {
        chart_lines(sessions, started)
    } else {
        Seq::empty()
    })
}

fn max_total_of(sessions: &Vec<&SessionUsage>) -> (r: u64)
    ensures
        r == greatest_total(ref_views(sessions@)),
{
    let ghost all = ref_views(sessions@);
    let mut best: u64 = 0;
    assert(all.take(0) =~= Seq::empty());
    for i in 0..sessions.len()
        invariant
            all == ref_views(sessions@),
            best == greatest_total(all.take(i as int)),
    {
        assert(all.take(i + 1).drop_last() == all.take(i as int));
        if let Some(total) = &sessions[i].total {
            if total.total_tokens > best {
                best = total.total_tokens;
            }
        }
    }
    assert(all.take(all.len() as int) == all);
    best
}

/// The views of sessions.
pub open spec fn ref_views(sessions: Seq<&SessionUsage>) -> Seq<SessionView> {
    sessions.map_values(|s: &SessionUsage| s@)
}

/// The texts of strings.
pub open spec fn lines_of(lines: Seq<String>) -> Seq<Seq<char>> {
    lines.map_values(|l: String| l@)
}

/// Appends the chart.
pub fn print_usage_chart(out: &mut Vec<String>, sessions: &Vec<&SessionUsage>, started: &Vec<&str>)
    requires
        started.len() == sessions.len(),
    ensures
        lines_of(final(out)@) == lines_of(old(out)@) + chart_lines(
            ref_views(sessions@),
            crate::identity::texts(started@),
        ),
{
    let ghost all = ref_views(sessions@);
    let ghost texts = crate::identity::texts(started@);
    let ghost start = lines_of(out@);
    let max_total: u64 = max_total_of(sessions);
    if max_total == 0 {
        assert(start + Seq::empty() =~= start);
        return;
    }
    out.push(String::new());
    out.push("Token composition".to_string());
    out.push("C=cached input  I=uncached input  O=output  R=reasoning".to_string());
    let ghost head = lines_of(out@);
    proof {
        reveal_strlit("");
        assert(""@ =~= Seq::empty());
        assert(head =~= start + seq![
            ""@,
            "Token composition"@,
            "C=cached input  I=uncached input  O=output  R=reasoning"@,
        ]);
        assert(all.take(0) =~= Seq::empty());
        assert(head + chart_rows(all.take(0), texts, max_total) =~= head);
    }
    for i in 0..sessions.len()
        invariant
            started.len() == sessions.len(),
            all == ref_views(sessions@),
            texts == crate::identity::texts(started@),
            lines_of(out@) == head + chart_rows(all.take(i as int), texts, max_total),
    {
        let session = sessions[i];
        let ghost before = lines_of(out@);
        proof {
            assert(all.take(i + 1).drop_last() == all.take(i as int));
            assert(all.take(i + 1).last() == session@);
        }
        if let Some(total) = &session.total {
            let mut line = String::new();
            push_pad_end(&mut line, started_of(session, started[i]).as_str(), 16);
            line.append(" [");
            line.append(usage_chart_bar(total, max_total, 48).as_str());
            line.append("] ");
            line.append(format_count(total.total_tokens).as_str());
            let ghost text = chart_line(session@, texts[i as int], *total, max_total);
            assert(line@ =~= text);
            out.push(line);
            assert(lines_of(out@) =~= before.push(text));
            assert(before.push(text) =~= head + chart_rows(all.take(i + 1), texts, max_total));
        }
    }
    assert(all.take(all.len() as int) == all);
    assert(lines_of(out@) =~= start + chart_lines(all, texts));
}

/// The table, and the chart where it is wanted. `started` says when each session started, in words.
pub fn print_usage_table(
    sessions: &Vec<&SessionUsage>,
    started: &Vec<&str>,
    show_chart: bool,
) -> (r: Vec<String>)
    requires
        started.len() == sessions.len(),
    ensures
        lines_of(r@) == report_lines(
            ref_views(sessions@),
            crate::identity::texts(started@),
            show_chart,
        ),
{
    let ghost all = ref_views(sessions@);
    let ghost texts = crate::identity::texts(started@);
    let mut r: Vec<String> = Vec::new();
    r.push(header());
    let mut rule = String::new();
    push_repeated(&mut rule, '-', 118);
    assert(rule@ =~= crate::text::repeated('-', 118));
    r.push(rule);
    let ghost head = lines_of(r@);
    assert(head =~= seq![header_line(), crate::text::repeated('-', 118)]);
    assert(head + table_rows(all, texts).take(0) =~= head);
    for i in 0..sessions.len()
        invariant
            started.len() == sessions.len(),
            all == ref_views(sessions@),
            texts == crate::identity::texts(started@),
            lines_of(r@) == head + table_rows(all, texts).take(i as int),
    {
        let ghost before = lines_of(r@);
        let line = session_line(sessions[i], started[i]);
        let ghost text = line@;
        assert(text == table_rows(all, texts)[i as int]);
        r.push(line);
        assert(lines_of(r@) =~= before.push(text));
        assert(before.push(text) =~= head + table_rows(all, texts).take(i + 1));
    }
    assert(table_rows(all, texts).take(all.len() as int) =~= table_rows(all, texts));
    if show_chart {
        print_usage_chart(&mut r, sessions, started);
    } else {
        assert(lines_of(r@) + Seq::empty() =~= lines_of(r@));
    }
    r
}

/// A time as a key: the later comes first.
pub struct LatestFirst {
    at: i128,
}

impl LatestFirst {
    pub closed spec fn time(self) -> int {
        self.at as int
    }
}

impl Ranked for LatestFirst {
    open spec fn before(self, other: Self) -> bool {
        self.time() > other.time()
    }

    proof fn lemma_asymmetric(a: Self, b: Self) {
    }

    proof fn lemma_weak(a: Self, b: Self, c: Self) {
    }

    fn is_before(&self, other: &Self) -> bool {
        self.at > other.at
    }
}

/// The session that was changed later comes first.
pub open spec fn latest_first(sessions: Seq<SessionView>) -> spec_fn(int, int) -> bool {
    |i: int, j: int| sessions[i].modified_at > sessions[j].modified_at
}

/// The session has counts, or all sessions are wanted.
pub open spec fn is_wanted(sessions: Seq<SessionView>, all: bool) -> spec_fn(int) -> bool {
    |i: int| all || sessions[i].total is Some
}

/// `s`, or its first `n` items where it has more.
pub open spec fn at_most<A>(s: Seq<A>, n: nat) -> Seq<A> {
    if s.len() <= n {
        s
    } else {
        s.take(n as int)
    }
}

/// The indices of the sessions that are reported, in order: the latest of those that are wanted.
pub open spec fn reported(sessions: Seq<SessionView>, options: OptionsView) -> Seq<int> {
    at_most(
        crate::order::order_by(sessions.len(), latest_first(sessions)).filter(
            is_wanted(sessions, options.all),
        ),
        options.limit,
    )
}

/// The report on sessions.
pub open spec fn report_of(
    options: OptionsView,
    sessions: Seq<SessionView>,
    started: Seq<Seq<char>>,
) -> Seq<Seq<char>> {
    let picked = reported(sessions, options);
    report_lines(
        picked.map_values(|i: int| sessions[i]),
        picked.map_values(|i: int| started[i]),
        options.show_chart,
    )
}

/// The indices of the sessions, the latest first.
fn ordered_sessions(sessions: &Vec<SessionUsage>) -> (r: Vec<usize>)
    ensures
        crate::order::as_ints(r@) == crate::order::order_by(
            sessions@.len(),
            latest_first(crate::sessions::session_views(sessions@)),
        ),
        r.len() == sessions.len(),
        forall|p: int| 0 <= p < r.len() ==> #[trigger] r[p] < sessions.len(),
{
    let ghost views = crate::sessions::session_views(sessions@);
    let mut keys: Vec<LatestFirst> = Vec::new();
    for i in 0..sessions.len()
        invariant
            views == crate::sessions::session_views(sessions@),
            keys.len() == i,
            forall|k: int| 0 <= k < i ==> (#[trigger] keys[k]).time() == views[k].modified_at,
    {
        keys.push(LatestFirst { at: sessions[i].modified_at });
    }
    let order = stable_order(&keys);
    let ghost places = crate::order::as_ints(order@);
    proof {
        let given = crate::order::by_keys(keys@);
        let less = latest_first(views);
        assert forall|i: int, j: int| 0 <= i < views.len() && 0 <= j < views.len() implies
            #[trigger] less(i, j) == given(i, j) by {
            assert(keys[i].time() == views[i].modified_at);
            assert(keys[j].time() == views[j].modified_at);
        }
        crate::order::lemma_order_same(views.len(), given, less, places);
        assert forall|p: int| 0 <= p < order.len() implies #[trigger] order[p] < sessions.len() by {
            assert(places[p] == order[p]);
        }
    }
    order
}

/// Reports on sessions: the latest of those that have counts, or of all. `started` says when each of
/// them started, in words.
pub fn run(options: &UsageOptions, sessions: &Vec<SessionUsage>, started: &Vec<String>) -> (r: Vec<
    String,
>)
    requires
        started.len() == sessions.len(),
    ensures
        lines_of(r@) == report_of(
            options@,
            crate::sessions::session_views(sessions@),
            lines_of(started@),
        ),
{
    let ghost views = crate::sessions::session_views(sessions@);
    let ghost texts = lines_of(started@);
    let order = ordered_sessions(sessions);
    let ghost places = crate::order::as_ints(order@);
    let ghost keep = is_wanted(views, options.all);
    let mut picked: Vec<&SessionUsage> = Vec::new();
    let mut words: Vec<&str> = Vec::new();
    let ghost mut kept: Seq<int> = Seq::empty();
    proof {
        reveal(Seq::filter);
        assert(places.take(0) =~= Seq::empty());
        assert(places.take(0).filter(keep) =~= Seq::empty());
        assert(at_most(Seq::<int>::empty(), options.limit as nat) =~= kept);
        assert(ref_views(picked@) =~= kept.map_values(|i: int| views[i]));
        assert(crate::identity::texts(words@) =~= kept.map_values(|i: int| texts[i]));
    }
    for p in 0..order.len()
        invariant
            started.len() == sessions.len(),
            views == crate::sessions::session_views(sessions@),
            texts == lines_of(started@),
            places == crate::order::as_ints(order@),
            keep == is_wanted(views, options.all),
            forall|q: int| 0 <= q < order.len() ==> #[trigger] order[q] < sessions.len(),
            kept == at_most(places.take(p as int).filter(keep), options.limit as nat),
            picked.len() == kept.len(),
            words.len() == kept.len(),
            ref_views(picked@) == kept.map_values(|i: int| views[i]),
            crate::identity::texts(words@) == kept.map_values(|i: int| texts[i]),
    {
        let i: usize = order[p];
        let ghost before = places.take(p as int).filter(keep);
        proof {
            reveal(Seq::filter);
            assert(places.take(p + 1).drop_last() == places.take(p as int));
            assert(places.take(p + 1).last() == i);
        }
        if (options.all || sessions[i].total.is_some()) && picked.len() < options.limit {
            let ghost one = picked@;
            let ghost two = words@;
            let ghost earlier = kept;
            picked.push(&sessions[i]);
            words.push(started[i].as_str());
            proof {
                kept = kept.push(i as int);
                assert(earlier == before);
                assert(ref_views(picked@) =~= ref_views(one).push(views[i as int]));
                assert(crate::identity::texts(words@) =~= crate::identity::texts(two).push(
                    texts[i as int],
                ));
                assert(kept.map_values(|i: int| views[i]) =~= earlier.map_values(
                    |i: int| views[i],
                ).push(views[i as int]));
                assert(kept.map_values(|i: int| texts[i]) =~= earlier.map_values(
                    |i: int| texts[i],
                ).push(texts[i as int]));
            }
        } else {
            proof {
                if keep(i as int) {
                    let now = places.take(p + 1).filter(keep);
                    assert(now == before.push(i as int));
                    assert(at_most(now, options.limit as nat) =~= kept);
                }
            }
        }
    }
    assert(places.take(places.len() as int) == places);
    print_usage_table(&picked, &words, options.show_chart)
}

/// At most as many sessions are reported as the limit allows; each is wanted, and none was changed
/// earlier than one that follows it. A session that is wanted and left out was not changed later
/// than any that is reported, and none is left out while there is room.
pub proof fn lemma_reported(sessions: Seq<SessionView>, options: OptionsView)
    ensures
        ({
            let r = reported(sessions, options);
            &&& r.len() <= options.limit
            &&& forall|p: int|
                0 <= p < r.len() ==> 0 <= #[trigger] r[p] < sessions.len() && is_wanted(
                    sessions,
                    options.all,
                )(r[p])
            &&& forall|p: int, q: int|
                0 <= p < q < r.len() ==> sessions[#[trigger] r[p]].modified_at
                    >= sessions[#[trigger] r[q]].modified_at && r[p] != r[q]
            &&& forall|i: int, p: int|
                0 <= i < sessions.len() && #[trigger] is_wanted(sessions, options.all)(i)
                    && !r.contains(i) && 0 <= p < r.len() ==> sessions[#[trigger] r[p]].modified_at
                    >= sessions[i].modified_at
            &&& forall|i: int|
                0 <= i < sessions.len() && #[trigger] is_wanted(sessions, options.all)(i)
                    && !r.contains(i) ==> r.len() == options.limit
        }),
{
    let n = sessions.len();
    let less = latest_first(sessions);
    let order = crate::order::order_by(n, less);
    crate::order::lemma_order_exists(n, less);
    let keep = is_wanted(sessions, options.all);
    let f = order.filter(keep);
    let r = reported(sessions, options);
    let rel = |i: int, j: int| sessions[i].modified_at >= sessions[j].modified_at && i != j;
    assert forall|p: int, q: int| 0 <= p < q < order.len() implies #[trigger] rel(
        #[trigger] order[p],
        #[trigger] order[q],
    ) by {
        assert(crate::order::precedes(less, order[p], order[q]));
    }
    crate::order::lemma_filter_pairs(order, keep, rel);
    assert forall|p: int| 0 <= p < f.len() implies 0 <= #[trigger] f[p] < n && keep(f[p]) by {
        crate::order::lemma_filter_contains(order, keep, f[p]);
        let k = choose|k: int| 0 <= k < order.len() && order[k] == f[p];
        assert(0 <= order[k] < n);
    }
    assert forall|p: int| 0 <= p < r.len() implies 0 <= #[trigger] r[p] < n && keep(r[p]) by {
        assert(r[p] == f[p]);
    }
    assert forall|p: int, q: int| 0 <= p < q < r.len() implies sessions[#[trigger] r[p]].modified_at
        >= sessions[#[trigger] r[q]].modified_at && r[p] != r[q] by {
        assert(r[p] == f[p] && r[q] == f[q]);
        assert(rel(f[p], f[q]));
    }
    assert forall|i: int| 0 <= i < n && #[trigger] keep(i) && !r.contains(i) implies r.len()
        == options.limit && (forall|p: int|
        0 <= p < r.len() ==> sessions[#[trigger] r[p]].modified_at >= sessions[i].modified_at) by {
        crate::order::lemma_filter_contains(order, keep, i);
        assert(order.contains(i));
        let k = choose|k: int| 0 <= k < f.len() && f[k] == i;
        if k < r.len() {
            assert(r[k] == i);
        }
        assert forall|p: int| 0 <= p < r.len() implies sessions[#[trigger] r[p]].modified_at
            >= sessions[i].modified_at by {
            assert(r[p] == f[p]);
            assert(rel(f[p], f[k]));
        }
    }
}

} // verus!
