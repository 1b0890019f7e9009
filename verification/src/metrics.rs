//! The Prometheus text of the world statistics.

use vstd::prelude::*;
use crate::numbers::{decimal, push_decimal, push_signed_decimal, signed_decimal};
use crate::text::{chars_of, push_char, push_str};
use crate::world::{Save, SaveView, WorldStats, WorldView, WrongPassword, WrongPasswordView};

verus! {

/// How one character is written inside a quoted label value.
pub open spec fn escape_char(c: char) -> Seq<char> {
    if c == '\\' {
        seq!['\\', '\\']
    } else if c == '"' {
        seq!['\\', '"']
    } else if c == '\n' {
        seq!['\\', 'n']
    } else {
        seq![c]
    }
}

/// A label value as Prometheus reads it inside quotes: each backslash, double
/// quote and newline written with a backslash before it.
pub open spec fn escape_label(s: Seq<char>) -> Seq<char> {
    s.map_values(|c: char| escape_char(c)).flatten()
}

/// How Prometheus reads a quoted label value back.
pub open spec fn unescape_label(t: Seq<char>) -> Seq<char>
    decreases t.len(),
{
    if t.len() == 0 {
        t
    } else if t[0] == '\\' && t.len() >= 2 {
        seq![if t[1] == 'n' { '\n' } else { t[1] }] + unescape_label(t.skip(2))
    } else {
        seq![t[0]] + unescape_label(t.skip(1))
    }
}

/// Escapes a label value for the Prometheus text format.
pub fn escape_prom_label_value(value: &str) -> (out: String)
    ensures
        out@ == escape_label(value@),
{
    let cs = chars_of(value);
    let mut out = String::new();
    let mut i: usize = 0;
    while i < cs.len()
        invariant
            i <= cs@.len(),
            cs@ == value@,
            out@ == escape_label(cs@.take(i as int)),
        decreases cs@.len() - i,
    {
        let c = cs[i];
        let ghost before = out@;
        if c == '\\' {
            push_char(&mut out, '\\');
            push_char(&mut out, '\\');
        } else if c == '"' {
            push_char(&mut out, '\\');
            push_char(&mut out, '"');
        } else if c == '\n' {
            push_char(&mut out, '\\');
            push_char(&mut out, 'n');
        } else {
            push_char(&mut out, c);
        }
        proof {
            let f = |c: char| escape_char(c);
            assert(cs@.take(i + 1).map_values(f) =~= cs@.take(i as int).map_values(f).push(
                escape_char(c),
            ));
            cs@.take(i as int).map_values(f).lemma_flatten_push(escape_char(c));
            assert(out@ =~= before + escape_char(c));
        }
        i = i + 1;
    }
    assert(cs@.take(cs@.len() as int) =~= cs@);
    out
}

proof fn lemma_unescape_escape_char(c: char, rest: Seq<char>)
    ensures
        unescape_label(escape_char(c) + rest) == seq![c] + unescape_label(rest),
{
    let t = escape_char(c) + rest;
    if c == '\\' || c == '"' || c == '\n' {
        assert(t.skip(2) =~= rest);
    } else {
        assert(t.skip(1) =~= rest);
    }
}

/// Reading an escaped label value back gives the value.
pub proof fn lemma_unescape_escape(s: Seq<char>)
    ensures
        unescape_label(escape_label(s)) == s,
    decreases s.len(),
{
    if s.len() > 0 {
        let f = |c: char| escape_char(c);
        let m = s.map_values(f);
        assert(m.drop_first() =~= s.drop_first().map_values(f));
        assert(escape_label(s) == escape_char(s[0]) + escape_label(s.drop_first()));
        lemma_unescape_escape_char(s[0], escape_label(s.drop_first()));
        lemma_unescape_escape(s.drop_first());
        assert(seq![s[0]] + s.drop_first() =~= s);
    }
}

/// An escaped label value holds no line break: it cannot end a sample early.
pub proof fn lemma_escape_has_no_newline(s: Seq<char>)
    ensures
        !escape_label(s).contains('\n'),
    decreases s.len(),
{
    if s.len() > 0 {
        let f = |c: char| escape_char(c);
        assert(s.map_values(f).drop_first() =~= s.drop_first().map_values(f));
        lemma_escape_has_no_newline(s.drop_first());
        let head = escape_char(s[0]);
        let tail = escape_label(s.drop_first());
        assert(escape_label(s) == head + tail);
        if (head + tail).contains('\n') {
            let i = choose|i: int| 0 <= i < (head + tail).len() && #[trigger] (head + tail)[i] == '\n';
            if i >= head.len() {
                assert(tail[i - head.len()] == '\n');
            }
        }
    }
}

/// How many backslashes stand right before position `i` of `t`.
pub open spec fn backslashes_before(t: Seq<char>, i: int) -> nat
    decreases i,
{
    if i <= 0 || i > t.len() {
        0
    } else if t[i - 1] == '\\' {
        backslashes_before(t, i - 1) + 1
    } else {
        0
    }
}

proof fn lemma_backslashes_prefix(a: Seq<char>, e: Seq<char>, i: int)
    requires
        0 <= i <= a.len(),
    ensures
        backslashes_before(a + e, i) == backslashes_before(a, i),
    decreases i,
{
    if i > 0 {
        lemma_backslashes_prefix(a, e, i - 1);
        assert((a + e)[i - 1] == a[i - 1]);
    }
}

proof fn lemma_escape_push(s: Seq<char>, c: char)
    ensures
        escape_label(s.push(c)) == escape_label(s) + escape_char(c),
{
    let f = |c: char| escape_char(c);
    assert(s.push(c).map_values(f) =~= s.map_values(f).push(escape_char(c)));
    s.map_values(f).lemma_flatten_push(escape_char(c));
}

/// An escaped value ends in an even run of backslashes, and every double
/// quote in it has an odd run of backslashes right before it: the quote is
/// escaped, so the value cannot close its label early.
pub proof fn lemma_escaped_quotes(s: Seq<char>)
    ensures
        backslashes_before(escape_label(s), escape_label(s).len() as int) % 2 == 0,
        forall|i: int|
            0 <= i < escape_label(s).len() && #[trigger] escape_label(s)[i] == '"' ==> backslashes_before(
                escape_label(s),
                i,
            ) % 2 == 1,
    decreases s.len(),
{
    if s.len() == 0 {
        assert(escape_label(s) =~= Seq::<char>::empty()) by {
            assert(s.map_values(|c: char| escape_char(c)) =~= Seq::<Seq<char>>::empty());
        }
    } else {
        let s1 = s.drop_last();
        let c = s.last();
        lemma_escaped_quotes(s1);
        assert(s1.push(c) =~= s);
        lemma_escape_push(s1, c);
        let a = escape_label(s1);
        let e = escape_char(c);
        let t = a + e;
        assert(escape_label(s) == t);
        lemma_backslashes_prefix(a, e, a.len() as int);
        // the end of the text
        if c == '\\' {
            assert(t.len() == a.len() + 2);
            let n = a.len() as int;
            assert(t[n + 1] == '\\' && t[n] == '\\');
            assert(backslashes_before(t, n + 1) == backslashes_before(t, n) + 1);
            assert(backslashes_before(t, n + 2) == backslashes_before(t, n + 1) + 1);
        } else {
            assert(t[t.len() - 1] != '\\');
        }
        assert forall|i: int| 0 <= i < t.len() && #[trigger] t[i] == '"' implies backslashes_before(t, i) % 2
            == 1 by {
            if i < a.len() {
                lemma_backslashes_prefix(a, e, i);
                assert(a[i] == t[i]);
            } else {
                // only the escape of a quote holds a quote, as its second character
                assert(c == '"' && i == a.len() + 1);
                assert(t[a.len() as int] == '\\');
            }
        }
    }
}

/// The bounds of the save-duration histogram's buckets, in seconds, as
/// `Display` writes them.
pub open spec fn bucket_bounds() -> Seq<Seq<char>> {
    seq![
        "0.1"@,
        "0.25"@,
        "0.5"@,
        "1"@,
        "2"@,
        "3"@,
        "5"@,
        "10"@,
        "20"@,
        "30"@,
        "60"@,
    ]
}

pub const BUCKET_COUNT: usize = 11;

fn bucket_bound(b: usize) -> (t: &'static str)
    requires
        b < BUCKET_COUNT,
    ensures
        t@ == bucket_bounds()[b as int],
{
    proof {
        reveal_strlit("0.1");
        reveal_strlit("0.25");
        reveal_strlit("0.5");
        reveal_strlit("1");
        reveal_strlit("2");
        reveal_strlit("3");
        reveal_strlit("5");
        reveal_strlit("10");
        reveal_strlit("20");
        reveal_strlit("30");
        reveal_strlit("60");
    }
    if b == 0 { "0.1" }
    else if b == 1 { "0.25" }
    else if b == 2 { "0.5" }
    else if b == 3 { "1" }
    else if b == 4 { "2" }
    else if b == 5 { "3" }
    else if b == 6 { "5" }
    else if b == 7 { "10" }
    else if b == 8 { "20" }
    else if b == 9 { "30" }
    else { "60" }
}

/// What only floating-point arithmetic says of the recorded saves.
pub struct SaveDurations {
    /// For each save, in order: its duration in seconds, as `Display` writes
    /// the floating-point number.
    pub seconds: Vec<String>,
    /// For each save, in order: how many of the bucket bounds lie below its
    /// duration, so that it counts in bucket `b` exactly when this is at most `b`.
    pub buckets_below: Vec<usize>,
    /// The floating-point sum of the `save` durations, as `Display` writes it.
    pub save_sum: String,
    /// The floating-point sum of the `backup` durations, as `Display` writes it.
    pub backup_sum: String,
}

/// How many of the first `n` saves are of the given kind.
pub open spec fn count_of_kind(saves: Seq<SaveView>, kind: Seq<char>, n: int) -> nat
    decreases n,
{
    if n <= 0 {
        0
    } else {
        count_of_kind(saves, kind, n - 1) + if saves[n - 1].kind == kind { 1nat } else { 0nat }
    }
}

/// Where the latest among the first `n` saves of the given kind stands, or -1.
pub open spec fn last_of_kind(saves: Seq<SaveView>, kind: Seq<char>, n: int) -> int
    decreases n,
{
    if n <= 0 {
        -1
    } else if saves[n - 1].kind == kind {
        n - 1
    } else {
        last_of_kind(saves, kind, n - 1)
    }
}

/// How many of the first `n` saves of the given kind fall in bucket `b`.
pub open spec fn bucket_count(
    saves: Seq<SaveView>,
    below: Seq<usize>,
    kind: Seq<char>,
    b: int,
    n: int,
) -> nat
    decreases n,
{
    if n <= 0 {
        0
    } else {
        bucket_count(saves, below, kind, b, n - 1) + if saves[n - 1].kind == kind && below[n - 1]
            <= b {
            1nat
        } else {
            0nat
        }
    }
}

/// The buckets are cumulative: each holds at least the saves of the one
/// before it, and none holds more than all the saves of its kind (the `+Inf`
/// bucket).
pub proof fn lemma_buckets_cumulative(
    saves: Seq<SaveView>,
    below: Seq<usize>,
    kind: Seq<char>,
    b: int,
    n: int,
)
    ensures
        bucket_count(saves, below, kind, b, n) <= bucket_count(saves, below, kind, b + 1, n),
        bucket_count(saves, below, kind, b, n) <= count_of_kind(saves, kind, n),
    decreases n,
{
    if n > 0 {
        lemma_buckets_cumulative(saves, below, kind, b, n - 1);
    }
}

pub open spec fn wrong_password_line(w: WrongPasswordView) -> Seq<char> {
    "valheim_wrong_password_total{steam_id=\""@ + w.steam_id + "\", name=\""@ + escape_label(w.name)
        + "\"} "@ + decimal(w.count)
}

pub open spec fn last_seconds_prefix(kind: Seq<char>) -> Seq<char> {
    "valheim_world_last_save_seconds{type=\""@ + kind + "\"} "@
}

pub open spec fn last_time_prefix(kind: Seq<char>) -> Seq<char> {
    "valheim_world_last_save_timestamp_seconds{type=\""@ + kind + "\"} "@
}

/// The duration and the time of the latest save of the given kind, if any;
/// `seconds` gives each save's duration as text.
pub open spec fn last_save_lines(
    saves: Seq<SaveView>,
    seconds: Seq<Seq<char>>,
    kind: Seq<char>,
) -> Seq<Seq<char>> {
    let i = last_of_kind(saves, kind, saves.len() as int);
    if i >= 0 {
        seq![
            last_seconds_prefix(kind) + seconds[i],
            last_time_prefix(kind) + signed_decimal(saves[i].at as int),
        ]
    } else {
        Seq::empty()
    }
}

pub open spec fn bucket_line(kind: Seq<char>, le: Seq<char>, n: nat) -> Seq<char> {
    "valheim_world_save_duration_seconds_bucket{type=\""@ + kind + "\", le=\""@ + le + "\"} "@
        + decimal(n)
}

/// The histogram of the durations of the saves of one kind: a line per
/// bucket, the `+Inf` bucket, the sum and the count; nothing when the kind has
/// no save.
pub open spec fn histogram_lines(
    saves: Seq<SaveView>,
    below: Seq<usize>,
    kind: Seq<char>,
    sum: Seq<char>,
) -> Seq<Seq<char>> {
    let n = count_of_kind(saves, kind, saves.len() as int);
    if n == 0 {
        Seq::empty()
    } else {
        Seq::new(
            BUCKET_COUNT as nat,
            |b: int| bucket_line(kind, bucket_bounds()[b], bucket_count(saves, below, kind, b, saves.len() as int)),
        ) + seq![
            bucket_line(kind, "+Inf"@, n),
            "valheim_world_save_duration_seconds_sum{type=\""@ + kind + "\"} "@ + sum,
            "valheim_world_save_duration_seconds_count{type=\""@ + kind + "\"} "@ + decimal(n),
        ]
    }
}

pub open spec fn optional_line(name: Seq<char>, value: Option<Seq<char>>) -> Seq<Seq<char>> {
    match value {
        Some(v) => seq![name + v],
        None => Seq::empty(),
    }
}

pub open spec fn u64_text(v: Option<u64>) -> Option<Seq<char>> {
    match v {
        Some(n) => Some(decimal(n as nat)),
        None => None,
    }
}

pub open spec fn u32_text(v: Option<u32>) -> Option<Seq<char>> {
    match v {
        Some(n) => Some(decimal(n as nat)),
        None => None,
    }
}

pub open spec fn i128_text(v: Option<i128>) -> Option<Seq<char>> {
    match v {
        Some(n) => Some(signed_decimal(n as int)),
        None => None,
    }
}

/// The world metrics, one sample per line: the object count, the day and the
/// load time where known, the RPC timeouts, the rejected joins per Steam id,
/// the latest save and backup, and the save-duration histograms.
pub open spec fn world_metric_lines(
    w: WorldView,
    seconds: Seq<Seq<char>>,
    below: Seq<usize>,
    save_sum: Seq<char>,
    backup_sum: Seq<char>,
) -> Seq<Seq<char>> {
    optional_line("valheim_world_zdo_count "@, u64_text(w.zdo_count)) + optional_line(
        "valheim_world_day "@,
        u32_text(w.day),
    ) + optional_line("valheim_world_load_seconds "@, i128_text(w.load_seconds)) + seq![
        "valheim_rpc_timeouts_total "@ + decimal(w.rpc_timeouts),
    ] + w.wrong_password.map_values(|x: WrongPasswordView| wrong_password_line(x)) + last_save_lines(
        w.saves,
        seconds,
        "save"@,
    ) + last_save_lines(w.saves, seconds, "backup"@) + histogram_section(w, below, save_sum, backup_sum)
}

/// Whether `line` begins with `prefix`.
pub open spec fn starts_with(line: Seq<char>, prefix: Seq<char>) -> bool {
    prefix.len() <= line.len() && line.take(prefix.len() as int) == prefix
}

/// The lines that begin with `prefix`, in order.
pub open spec fn lines_with_prefix(lines: Seq<Seq<char>>, prefix: Seq<char>) -> Seq<Seq<char>>
    decreases lines.len(),
{
    if lines.len() == 0 {
        lines
    } else if starts_with(lines.last(), prefix) {
        lines_with_prefix(lines.drop_last(), prefix).push(lines.last())
    } else {
        lines_with_prefix(lines.drop_last(), prefix)
    }
}

proof fn lemma_prefix_concat(a: Seq<Seq<char>>, b: Seq<Seq<char>>, p: Seq<char>)
    ensures
        lines_with_prefix(a + b, p) == lines_with_prefix(a, p) + lines_with_prefix(b, p),
    decreases b.len(),
{
    if b.len() == 0 {
        assert(a + b =~= a);
        assert(lines_with_prefix(a, p) + lines_with_prefix(b, p) =~= lines_with_prefix(a, p));
    } else {
        lemma_prefix_concat(a, b.drop_last(), p);
        assert((a + b).drop_last() =~= a + b.drop_last());
        assert((a + b).last() == b.last());
        if starts_with(b.last(), p) {
            assert(lines_with_prefix(a, p) + lines_with_prefix(b, p) =~= (lines_with_prefix(a, p)
                + lines_with_prefix(b.drop_last(), p)).push(b.last()));
        }
    }
}

proof fn lemma_prefix_none(a: Seq<Seq<char>>, p: Seq<char>)
    requires
        forall|i: int| 0 <= i < a.len() ==> !starts_with(#[trigger] a[i], p),
    ensures
        lines_with_prefix(a, p) == Seq::<Seq<char>>::empty(),
    decreases a.len(),
{
    if a.len() > 0 {
        let t = a.drop_last();
        assert forall|i: int| 0 <= i < t.len() implies !starts_with(#[trigger] t[i], p) by {
            assert(t[i] == a[i]);
        }
        lemma_prefix_none(t, p);
        assert(!starts_with(a[a.len() - 1], p));
    }
}

proof fn lemma_prefix_all(a: Seq<Seq<char>>, p: Seq<char>)
    requires
        forall|i: int| 0 <= i < a.len() ==> starts_with(#[trigger] a[i], p),
    ensures
        lines_with_prefix(a, p) == a,
    decreases a.len(),
{
    if a.len() > 0 {
        let t = a.drop_last();
        assert forall|i: int| 0 <= i < t.len() implies starts_with(#[trigger] t[i], p) by {
            assert(t[i] == a[i]);
        }
        lemma_prefix_all(t, p);
        assert(starts_with(a[a.len() - 1], p));
        assert(t.push(a.last()) =~= a);
    }
}

/// A line whose `i`-th character differs from the prefix's does not begin with it.
proof fn lemma_differs_at(line: Seq<char>, p: Seq<char>, i: int)
    requires
        0 <= i < line.len(),
        i < p.len(),
        line[i] != p[i],
    ensures
        !starts_with(line, p),
{
    if starts_with(line, p) {
        assert(line.take(p.len() as int)[i] == line[i]);
    }
}

/// The histogram lines: the `# TYPE` line and the samples of both kinds.
pub open spec fn histogram_section(
    w: WorldView,
    below: Seq<usize>,
    save_sum: Seq<char>,
    backup_sum: Seq<char>,
) -> Seq<Seq<char>> {
    if w.saves.len() > 0 {
        seq!["# TYPE valheim_world_save_duration_seconds histogram"@] + histogram_lines(
            w.saves,
            below,
            "save"@,
            save_sum,
        ) + histogram_lines(w.saves, below, "backup"@, backup_sum)
    } else {
        Seq::empty()
    }
}

/// Every line of the histogram begins with `# TYPE` or with
/// `valheim_world_save_duration_seconds_`.
proof fn lemma_histogram_heads(
    w: WorldView,
    below: Seq<usize>,
    save_sum: Seq<char>,
    backup_sum: Seq<char>,
    i: int,
)
    requires
        0 <= i < histogram_section(w, below, save_sum, backup_sum).len(),
    ensures
        ({
            let line = histogram_section(w, below, save_sum, backup_sum)[i];
            ||| line == "# TYPE valheim_world_save_duration_seconds histogram"@
            ||| starts_with(line, "valheim_world_save_duration_seconds_"@)
        }),
{
    reveal_strlit("valheim_world_save_duration_seconds_");
    reveal_strlit("valheim_world_save_duration_seconds_bucket{type=\"");
    reveal_strlit("valheim_world_save_duration_seconds_sum{type=\"");
    reveal_strlit("valheim_world_save_duration_seconds_count{type=\"");
    let head = "valheim_world_save_duration_seconds_"@;
    let hs = histogram_section(w, below, save_sum, backup_sum);
    let t = seq!["# TYPE valheim_world_save_duration_seconds histogram"@];
    let h1 = histogram_lines(w.saves, below, "save"@, save_sum);
    let h2 = histogram_lines(w.saves, below, "backup"@, backup_sum);
    assert forall|kind: Seq<char>, sum: Seq<char>, j: int|
        0 <= j < histogram_lines(w.saves, below, kind, sum).len() implies starts_with(
        #[trigger] histogram_lines(w.saves, below, kind, sum)[j],
        head,
    ) by {
        let h = histogram_lines(w.saves, below, kind, sum);
        let n = count_of_kind(w.saves, kind, w.saves.len() as int);
        let line = h[j];
        if j < BUCKET_COUNT {
            let b = bucket_line(kind, bucket_bounds()[j], bucket_count(w.saves, below, kind, j, w.saves.len() as int));
            assert(line == b);
            assert(b.take(head.len() as int) =~= head);
        } else if j == BUCKET_COUNT {
            assert(line.take(head.len() as int) =~= head);
        } else if j == BUCKET_COUNT + 1 {
            assert(line.take(head.len() as int) =~= head);
        } else {
            assert(line.take(head.len() as int) =~= head);
        }
    }
    if w.saves.len() > 0 {
        assert(hs == t + h1 + h2);
        if i >= 1 && i < 1 + h1.len() {
            assert(hs[i] == h1[i - 1]);
        } else if i >= 1 + h1.len() {
            assert(hs[i] == h2[i - 1 - h1.len()]);
        }
    }
}

/// The rejected-join samples are exactly one line per entry, in order: no
/// other sample begins like them.
pub proof fn lemma_one_line_per_rejected_join(
    w: WorldView,
    seconds: Seq<Seq<char>>,
    below: Seq<usize>,
    save_sum: Seq<char>,
    backup_sum: Seq<char>,
)
    ensures
        lines_with_prefix(
            world_metric_lines(w, seconds, below, save_sum, backup_sum),
            "valheim_wrong_password_total"@,
        ) == w.wrong_password.map_values(|x: WrongPasswordView| wrong_password_line(x)),
        lines_with_prefix(
            world_metric_lines(w, seconds, below, save_sum, backup_sum),
            "valheim_wrong_password_total"@,
        ).len() == w.wrong_password.len(),
        forall|i: int|
            0 <= i < w.wrong_password.len() ==> #[trigger] lines_with_prefix(
                world_metric_lines(w, seconds, below, save_sum, backup_sum),
                "valheim_wrong_password_total"@,
            )[i] == "valheim_wrong_password_total{steam_id=\""@ + w.wrong_password[i].steam_id
                + "\", name=\""@ + escape_label(w.wrong_password[i].name) + "\"} "@ + decimal(
                w.wrong_password[i].count,
            ),
{
    reveal_strlit("valheim_wrong_password_total");
    reveal_strlit("valheim_wrong_password_total{steam_id=\"");
    reveal_strlit("valheim_world_zdo_count ");
    reveal_strlit("valheim_world_day ");
    reveal_strlit("valheim_world_load_seconds ");
    reveal_strlit("valheim_rpc_timeouts_total ");
    reveal_strlit("valheim_world_last_save_seconds{type=\"");
    reveal_strlit("valheim_world_last_save_timestamp_seconds{type=\"");
    reveal_strlit("# TYPE valheim_world_save_duration_seconds histogram");
    reveal_strlit("valheim_world_save_duration_seconds_");
    let p = "valheim_wrong_password_total"@;
    let o1 = optional_line("valheim_world_zdo_count "@, u64_text(w.zdo_count));
    let o2 = optional_line("valheim_world_day "@, u32_text(w.day));
    let o3 = optional_line("valheim_world_load_seconds "@, i128_text(w.load_seconds));
    let rpc = seq!["valheim_rpc_timeouts_total "@ + decimal(w.rpc_timeouts)];
    let wp = w.wrong_password.map_values(|x: WrongPasswordView| wrong_password_line(x));
    let l1 = last_save_lines(w.saves, seconds, "save"@);
    let l2 = last_save_lines(w.saves, seconds, "backup"@);
    let hs = histogram_section(w, below, save_sum, backup_sum);
    assert forall|i: int| 0 <= i < o1.len() implies !starts_with(#[trigger] o1[i], p) by {
        lemma_differs_at(o1[i], p, 9);
    }
    assert forall|i: int| 0 <= i < o2.len() implies !starts_with(#[trigger] o2[i], p) by {
        lemma_differs_at(o2[i], p, 9);
    }
    assert forall|i: int| 0 <= i < o3.len() implies !starts_with(#[trigger] o3[i], p) by {
        lemma_differs_at(o3[i], p, 9);
    }
    assert forall|i: int| 0 <= i < rpc.len() implies !starts_with(#[trigger] rpc[i], p) by {
        lemma_differs_at(rpc[i], p, 8);
    }
    assert forall|i: int| 0 <= i < l1.len() implies !starts_with(#[trigger] l1[i], p) by {
        lemma_differs_at(l1[i], p, 9);
    }
    assert forall|i: int| 0 <= i < l2.len() implies !starts_with(#[trigger] l2[i], p) by {
        lemma_differs_at(l2[i], p, 9);
    }
    assert forall|i: int| 0 <= i < hs.len() implies !starts_with(#[trigger] hs[i], p) by {
        lemma_histogram_heads(w, below, save_sum, backup_sum, i);
        if hs[i] == "# TYPE valheim_world_save_duration_seconds histogram"@ {
            lemma_differs_at(hs[i], p, 0);
        } else {
            assert(hs[i].take(36)[9] == hs[i][9]);
            lemma_differs_at(hs[i], p, 9);
        }
    }
    assert forall|i: int| 0 <= i < wp.len() implies starts_with(#[trigger] wp[i], p) by {
        assert(wp[i].take(p.len() as int) =~= p);
    }
    lemma_prefix_none(o1, p);
    lemma_prefix_none(o2, p);
    lemma_prefix_none(o3, p);
    lemma_prefix_none(rpc, p);
    lemma_prefix_all(wp, p);
    lemma_prefix_none(l1, p);
    lemma_prefix_none(l2, p);
    lemma_prefix_none(hs, p);
    lemma_prefix_concat(o1, o2, p);
    lemma_prefix_concat(o1 + o2, o3, p);
    lemma_prefix_concat(o1 + o2 + o3, rpc, p);
    lemma_prefix_concat(o1 + o2 + o3 + rpc, wp, p);
    lemma_prefix_concat(o1 + o2 + o3 + rpc + wp, l1, p);
    lemma_prefix_concat(o1 + o2 + o3 + rpc + wp + l1, l2, p);
    lemma_prefix_concat(o1 + o2 + o3 + rpc + wp + l1 + l2, hs, p);
    let e = Seq::<Seq<char>>::empty();
    assert(e + e + e + e + wp + e + e + e =~= wp);
}

proof fn lemma_prefix_first_of_two(a: Seq<char>, b: Seq<char>, p: Seq<char>)
    requires
        starts_with(a, p),
        !starts_with(b, p),
    ensures
        lines_with_prefix(seq![a, b], p) == seq![a],
{
    let two = seq![a, b];
    let one = seq![a];
    let e = Seq::<Seq<char>>::empty();
    assert(two.last() == b);
    assert(two.drop_last() =~= one);
    assert(one.last() == a);
    assert(one.drop_last() =~= e);
    assert(lines_with_prefix(e, p) == e);
    assert(lines_with_prefix(one, p) == lines_with_prefix(e, p).push(a));
    assert(e.push(a) =~= one);
    assert(lines_with_prefix(two, p) == lines_with_prefix(one, p));
}

proof fn lemma_prefix_second_of_two(a: Seq<char>, b: Seq<char>, p: Seq<char>)
    requires
        !starts_with(a, p),
        starts_with(b, p),
    ensures
        lines_with_prefix(seq![a, b], p) == seq![b],
{
    let two = seq![a, b];
    let one = seq![a];
    let e = Seq::<Seq<char>>::empty();
    assert(two.last() == b);
    assert(two.drop_last() =~= one);
    assert(one.last() == a);
    assert(one.drop_last() =~= e);
    assert(lines_with_prefix(e, p) == e);
    assert(lines_with_prefix(one, p) == lines_with_prefix(e, p));
    assert(lines_with_prefix(two, p) == lines_with_prefix(one, p).push(b));
    assert(e.push(b) =~= seq![b]);
}

/// `last_of_kind` finds the latest save of the kind among the first `n`: it
/// is of that kind, and none after it is; -1 when none is.
proof fn lemma_last_of_kind(saves: Seq<SaveView>, kind: Seq<char>, n: int)
    requires
        0 <= n <= saves.len(),
    ensures
        -1 <= last_of_kind(saves, kind, n) < n,
        last_of_kind(saves, kind, n) >= 0 ==> saves[last_of_kind(saves, kind, n)].kind == kind,
        forall|j: int| last_of_kind(saves, kind, n) < j < n ==> (#[trigger] saves[j]).kind != kind,
    decreases n,
{
    if n > 0 {
        lemma_last_of_kind(saves, kind, n - 1);
    }
}

/// The duration and the time of the latest save of each kind stand on one
/// line each, and no other line begins like them; a kind without saves has
/// neither.
pub proof fn lemma_one_latest_save_line(
    w: WorldView,
    seconds: Seq<Seq<char>>,
    below: Seq<usize>,
    save_sum: Seq<char>,
    backup_sum: Seq<char>,
    kind: Seq<char>,
)
    requires
        kind == "save"@ || kind == "backup"@,
    ensures
        ({
            let lines = world_metric_lines(w, seconds, below, save_sum, backup_sum);
            let i = last_of_kind(w.saves, kind, w.saves.len() as int);
            &&& i >= 0 ==> lines_with_prefix(lines, last_seconds_prefix(kind)) == seq![
                last_seconds_prefix(kind) + seconds[i],
            ]
            &&& i >= 0 ==> lines_with_prefix(lines, last_time_prefix(kind)) == seq![
                last_time_prefix(kind) + signed_decimal(w.saves[i].at as int),
            ]
            &&& i < 0 ==> lines_with_prefix(lines, last_seconds_prefix(kind)).len() == 0
            &&& i < 0 ==> lines_with_prefix(lines, last_time_prefix(kind)).len() == 0
            &&& i >= 0 ==> i < w.saves.len() && w.saves[i].kind == kind
            &&& forall|j: int| i < j < w.saves.len() ==> (#[trigger] w.saves[j]).kind != kind
        }),
{
    lemma_last_of_kind(w.saves, kind, w.saves.len() as int);
    reveal_strlit("save");
    reveal_strlit("backup");
    reveal_strlit("\"} ");
    reveal_strlit("valheim_wrong_password_total{steam_id=\"");
    reveal_strlit("valheim_world_zdo_count ");
    reveal_strlit("valheim_world_day ");
    reveal_strlit("valheim_world_load_seconds ");
    reveal_strlit("valheim_rpc_timeouts_total ");
    reveal_strlit("valheim_world_last_save_seconds{type=\"");
    reveal_strlit("valheim_world_last_save_timestamp_seconds{type=\"");
    reveal_strlit("# TYPE valheim_world_save_duration_seconds histogram");
    reveal_strlit("valheim_world_save_duration_seconds_");
    let o1 = optional_line("valheim_world_zdo_count "@, u64_text(w.zdo_count));
    let o2 = optional_line("valheim_world_day "@, u32_text(w.day));
    let o3 = optional_line("valheim_world_load_seconds "@, i128_text(w.load_seconds));
    let rpc = seq!["valheim_rpc_timeouts_total "@ + decimal(w.rpc_timeouts)];
    let wp = w.wrong_password.map_values(|x: WrongPasswordView| wrong_password_line(x));
    let l1 = last_save_lines(w.saves, seconds, "save"@);
    let l2 = last_save_lines(w.saves, seconds, "backup"@);
    let hs = histogram_section(w, below, save_sum, backup_sum);
    let other = if kind == "save"@ { "backup"@ } else { "save"@ };
    let mine = if kind == "save"@ { l1 } else { l2 };
    let theirs = if kind == "save"@ { l2 } else { l1 };
    assert(last_save_lines(w.saves, seconds, kind) == mine);
    assert(last_save_lines(w.saves, seconds, other) == theirs);
    let i = last_of_kind(w.saves, kind, w.saves.len() as int);
    let lp = last_seconds_prefix(kind);
    let tp = last_time_prefix(kind);
    assert(lp.len() == 41 + kind.len());
    assert(tp.len() == 51 + kind.len());
    assert(lp[14] == 'l' && lp[15] == 'a' && lp[8] == 'w' && lp[9] == 'o' && lp[24] == 's' && lp[0] == 'v');
    assert(tp[14] == 'l' && tp[15] == 'a' && tp[8] == 'w' && tp[9] == 'o' && tp[24] == 't' && tp[0] == 'v');
    assert(lp[38] == kind[0] && tp[48] == kind[0]);
    assert(kind[0] != other[0]);
    // The lines of every other part begin otherwise, for both prefixes.
    assert forall|q: Seq<char>| q == lp || q == tp implies {
        &&& lines_with_prefix(o1, q).len() == 0
        &&& lines_with_prefix(o2, q).len() == 0
        &&& lines_with_prefix(o3, q).len() == 0
        &&& lines_with_prefix(rpc, q).len() == 0
        &&& lines_with_prefix(wp, q).len() == 0
        &&& lines_with_prefix(theirs, q).len() == 0
        &&& lines_with_prefix(hs, q).len() == 0
    } by {
        assert forall|j: int| 0 <= j < o1.len() implies !starts_with(#[trigger] o1[j], q) by {
            lemma_differs_at(o1[j], q, 14);
        }
        assert forall|j: int| 0 <= j < o2.len() implies !starts_with(#[trigger] o2[j], q) by {
            lemma_differs_at(o2[j], q, 14);
        }
        assert forall|j: int| 0 <= j < o3.len() implies !starts_with(#[trigger] o3[j], q) by {
            lemma_differs_at(o3[j], q, 15);
        }
        assert forall|j: int| 0 <= j < rpc.len() implies !starts_with(#[trigger] rpc[j], q) by {
            lemma_differs_at(rpc[j], q, 8);
        }
        assert forall|j: int| 0 <= j < wp.len() implies !starts_with(#[trigger] wp[j], q) by {
            lemma_differs_at(wp[j], q, 9);
        }
        assert forall|j: int| 0 <= j < theirs.len() implies !starts_with(#[trigger] theirs[j], q) by {
            let op = last_seconds_prefix(other);
            let ot = last_time_prefix(other);
            assert(op[24] == 's' && ot[24] == 't' && op[38] == other[0] && ot[48] == other[0]);
            if j == 0 {
                if q == lp {
                    lemma_differs_at(theirs[j], q, 38);
                } else {
                    lemma_differs_at(theirs[j], q, 24);
                }
            } else {
                if q == lp {
                    lemma_differs_at(theirs[j], q, 24);
                } else {
                    lemma_differs_at(theirs[j], q, 48);
                }
            }
        }
        assert forall|j: int| 0 <= j < hs.len() implies !starts_with(#[trigger] hs[j], q) by {
            lemma_histogram_heads(w, below, save_sum, backup_sum, j);
            if hs[j] == "# TYPE valheim_world_save_duration_seconds histogram"@ {
                lemma_differs_at(hs[j], q, 0);
            } else {
                assert(hs[j].take(36)[14] == hs[j][14]);
                lemma_differs_at(hs[j], q, 14);
            }
        }
        lemma_prefix_none(o1, q);
        lemma_prefix_none(o2, q);
        lemma_prefix_none(o3, q);
        lemma_prefix_none(rpc, q);
        lemma_prefix_none(wp, q);
        lemma_prefix_none(theirs, q);
        lemma_prefix_none(hs, q);
    }
    // The own part holds one line of each.
    if i >= 0 {
        let a = lp + seconds[i];
        let b = tp + signed_decimal(w.saves[i].at as int);
        assert(mine == seq![a, b]);
        assert(a.take(lp.len() as int) =~= lp);
        assert(b.take(tp.len() as int) =~= tp);
        lemma_differs_at(b, lp, 24);
        lemma_differs_at(a, tp, 24);
        lemma_prefix_first_of_two(a, b, lp);
        lemma_prefix_second_of_two(a, b, tp);
    } else {
        assert(mine.len() == 0);
        assert(mine =~= Seq::<Seq<char>>::empty());
    }
    assert forall|q: Seq<char>| q == lp || q == tp implies lines_with_prefix(
        world_metric_lines(w, seconds, below, save_sum, backup_sum),
        q,
    ) == lines_with_prefix(mine, q) by {
        lemma_prefix_concat(o1, o2, q);
        lemma_prefix_concat(o1 + o2, o3, q);
        lemma_prefix_concat(o1 + o2 + o3, rpc, q);
        lemma_prefix_concat(o1 + o2 + o3 + rpc, wp, q);
        lemma_prefix_concat(o1 + o2 + o3 + rpc + wp, l1, q);
        lemma_prefix_concat(o1 + o2 + o3 + rpc + wp + l1, l2, q);
        lemma_prefix_concat(o1 + o2 + o3 + rpc + wp + l1 + l2, hs, q);
        let e = Seq::<Seq<char>>::empty();
        assert(lines_with_prefix(o1, q) =~= e);
        assert(lines_with_prefix(o2, q) =~= e);
        assert(lines_with_prefix(o3, q) =~= e);
        assert(lines_with_prefix(rpc, q) =~= e);
        assert(lines_with_prefix(wp, q) =~= e);
        assert(lines_with_prefix(theirs, q) =~= e);
        assert(lines_with_prefix(hs, q) =~= e);
        if kind == "save"@ {
            assert(e + e + e + e + e + lines_with_prefix(mine, q) + e + e =~= lines_with_prefix(mine, q));
        } else {
            assert(e + e + e + e + e + e + lines_with_prefix(mine, q) + e =~= lines_with_prefix(mine, q));
        }
    }
    let lines = world_metric_lines(w, seconds, below, save_sum, backup_sum);
    assert(lines_with_prefix(lines, lp) == lines_with_prefix(mine, lp));
    assert(lines_with_prefix(lines, tp) == lines_with_prefix(mine, tp));
    if i < 0 {
        let e = Seq::<Seq<char>>::empty();
        assert(lines_with_prefix(e, lp) == e);
        assert(lines_with_prefix(e, tp) == e);
    }
}

pub open spec fn sum_prefix(kind: Seq<char>) -> Seq<char> {
    "valheim_world_save_duration_seconds_sum{type=\""@ + kind + "\"} "@
}

/// How many of the first `n` saves are of `kind` is positive exactly when one
/// of them is.
proof fn lemma_count_positive(saves: Seq<SaveView>, kind: Seq<char>, n: int)
    requires
        0 <= n <= saves.len(),
    ensures
        count_of_kind(saves, kind, n) > 0 <==> exists|i: int| 0 <= i < n && #[trigger] saves[i].kind == kind,
    decreases n,
{
    if n > 0 {
        lemma_count_positive(saves, kind, n - 1);
        if count_of_kind(saves, kind, n - 1) > 0 {
            let i = choose|i: int| 0 <= i < n - 1 && #[trigger] saves[i].kind == kind;
            assert(0 <= i < n && saves[i].kind == kind);
        }
        if saves[n - 1].kind == kind {
            assert(0 <= n - 1 < n && saves[n - 1].kind == kind);
        }
    }
}

proof fn lemma_prefix_single(a: Seq<char>, p: Seq<char>)
    ensures
        starts_with(a, p) ==> lines_with_prefix(seq![a], p) == seq![a],
        !starts_with(a, p) ==> lines_with_prefix(seq![a], p) == Seq::<Seq<char>>::empty(),
{
    let one = seq![a];
    let e = Seq::<Seq<char>>::empty();
    assert(one.last() == a);
    assert(one.drop_last() =~= e);
    assert(lines_with_prefix(e, p) == e);
    assert(e.push(a) =~= one);
}

/// Among the lines of one kind's histogram, only its sum line begins like the
/// sum line of `kind`, and only when the two kinds agree.
proof fn lemma_sum_in_histogram(
    saves: Seq<SaveView>,
    below: Seq<usize>,
    kind: Seq<char>,
    k2: Seq<char>,
    sum: Seq<char>,
)
    requires
        kind == "save"@ || kind == "backup"@,
        k2 == "save"@ || k2 == "backup"@,
    ensures
        lines_with_prefix(histogram_lines(saves, below, k2, sum), sum_prefix(kind)) == if kind == k2
            && count_of_kind(saves, k2, saves.len() as int) > 0 {
            seq![sum_prefix(kind) + sum]
        } else {
            Seq::<Seq<char>>::empty()
        },
{
    reveal_strlit("save");
    reveal_strlit("backup");
    reveal_strlit("valheim_world_save_duration_seconds_sum{type=\"");
    reveal_strlit("valheim_world_save_duration_seconds_bucket{type=\"");
    reveal_strlit("valheim_world_save_duration_seconds_count{type=\"");
    reveal_strlit("\"} ");
    let p = sum_prefix(kind);
    let h = histogram_lines(saves, below, k2, sum);
    let n = count_of_kind(saves, k2, saves.len() as int);
    let e = Seq::<Seq<char>>::empty();
    assert(p.len() == 49 + kind.len());
    assert(p[36] == 's' && p[46] == kind[0]);
    if n == 0 {
        assert(h == e);
        assert(lines_with_prefix(e, p) == e);
    } else {
        let b = Seq::new(
            BUCKET_COUNT as nat,
            |j: int| bucket_line(k2, bucket_bounds()[j], bucket_count(saves, below, k2, j, saves.len() as int)),
        );
        let inf = bucket_line(k2, "+Inf"@, n);
        let sl = "valheim_world_save_duration_seconds_sum{type=\""@ + k2 + "\"} "@ + sum;
        let cl = "valheim_world_save_duration_seconds_count{type=\""@ + k2 + "\"} "@ + decimal(n);
        assert(h == b + seq![inf, sl, cl]);
        assert forall|j: int| 0 <= j < b.len() implies !starts_with(#[trigger] b[j], p) by {
            lemma_differs_at(b[j], p, 36);
        }
        lemma_prefix_none(b, p);
        lemma_differs_at(inf, p, 36);
        lemma_differs_at(cl, p, 36);
        lemma_prefix_single(inf, p);
        lemma_prefix_single(sl, p);
        lemma_prefix_single(cl, p);
        if kind == k2 {
            assert(sl == p + sum);
            assert(sl.take(p.len() as int) =~= p);
        } else {
            assert(kind[0] != k2[0]);
            lemma_differs_at(sl, p, 46);
        }
        assert(seq![inf, sl, cl] =~= seq![inf] + seq![sl] + seq![cl]);
        lemma_prefix_concat(seq![inf], seq![sl], p);
        lemma_prefix_concat(seq![inf] + seq![sl], seq![cl], p);
        lemma_prefix_concat(b, seq![inf, sl, cl], p);
        if kind == k2 {
            assert(e + (e + seq![sl] + e) =~= seq![sl]);
        } else {
            assert(e + (e + e + e) =~= e);
        }
    }
}

/// The sum sample of each kind's histogram carries that kind's own sum: the
/// save sum for saves, the backup sum for backups. It is the only line that
/// begins like it, and a kind without saves has none.
pub proof fn lemma_histogram_sums(
    w: WorldView,
    seconds: Seq<Seq<char>>,
    below: Seq<usize>,
    save_sum: Seq<char>,
    backup_sum: Seq<char>,
)
    ensures
        ({
            let lines = world_metric_lines(w, seconds, below, save_sum, backup_sum);
            let sp = "valheim_world_save_duration_seconds_sum{type=\"save\"} "@;
            let bp = "valheim_world_save_duration_seconds_sum{type=\"backup\"} "@;
            &&& (exists|i: int| 0 <= i < w.saves.len() && #[trigger] w.saves[i].kind == "save"@)
                ==> lines_with_prefix(lines, sp) == seq![sp + save_sum]
            &&& (exists|i: int| 0 <= i < w.saves.len() && #[trigger] w.saves[i].kind == "backup"@)
                ==> lines_with_prefix(lines, bp) == seq![bp + backup_sum]
            &&& !(exists|i: int| 0 <= i < w.saves.len() && #[trigger] w.saves[i].kind == "save"@)
                ==> lines_with_prefix(lines, sp).len() == 0
            &&& !(exists|i: int| 0 <= i < w.saves.len() && #[trigger] w.saves[i].kind == "backup"@)
                ==> lines_with_prefix(lines, bp).len() == 0
        }),
{
    reveal_strlit("save");
    reveal_strlit("backup");
    reveal_strlit("\"} ");
    reveal_strlit("valheim_world_save_duration_seconds_sum{type=\"");
    reveal_strlit("valheim_world_save_duration_seconds_sum{type=\"save\"} ");
    reveal_strlit("valheim_world_save_duration_seconds_sum{type=\"backup\"} ");
    assert("valheim_world_save_duration_seconds_sum{type=\"save\"} "@ =~= sum_prefix("save"@));
    assert("valheim_world_save_duration_seconds_sum{type=\"backup\"} "@ =~= sum_prefix("backup"@));
    lemma_count_positive(w.saves, "save"@, w.saves.len() as int);
    lemma_count_positive(w.saves, "backup"@, w.saves.len() as int);
    lemma_sum_line_once(w, seconds, below, save_sum, backup_sum, "save"@);
    lemma_sum_line_once(w, seconds, below, save_sum, backup_sum, "backup"@);
}

proof fn lemma_sum_line_once(
    w: WorldView,
    seconds: Seq<Seq<char>>,
    below: Seq<usize>,
    save_sum: Seq<char>,
    backup_sum: Seq<char>,
    kind: Seq<char>,
)
    requires
        kind == "save"@ || kind == "backup"@,
    ensures
        lines_with_prefix(world_metric_lines(w, seconds, below, save_sum, backup_sum), sum_prefix(kind))
            == if count_of_kind(w.saves, kind, w.saves.len() as int) > 0 {
            seq![sum_prefix(kind) + if kind == "save"@ { save_sum } else { backup_sum }]
        } else {
            Seq::<Seq<char>>::empty()
        },
{
    reveal_strlit("save");
    reveal_strlit("backup");
    reveal_strlit("\"} ");
    reveal_strlit("valheim_wrong_password_total{steam_id=\"");
    reveal_strlit("valheim_world_zdo_count ");
    reveal_strlit("valheim_world_day ");
    reveal_strlit("valheim_world_load_seconds ");
    reveal_strlit("valheim_rpc_timeouts_total ");
    reveal_strlit("valheim_world_last_save_seconds{type=\"");
    reveal_strlit("valheim_world_last_save_timestamp_seconds{type=\"");
    reveal_strlit("# TYPE valheim_world_save_duration_seconds histogram");
    reveal_strlit("valheim_world_save_duration_seconds_sum{type=\"");
    let p = sum_prefix(kind);
    assert(p.len() == 49 + kind.len());
    assert(p[0] == 'v' && p[8] == 'w' && p[9] == 'o' && p[14] == 's');
    let o1 = optional_line("valheim_world_zdo_count "@, u64_text(w.zdo_count));
    let o2 = optional_line("valheim_world_day "@, u32_text(w.day));
    let o3 = optional_line("valheim_world_load_seconds "@, i128_text(w.load_seconds));
    let rpc = seq!["valheim_rpc_timeouts_total "@ + decimal(w.rpc_timeouts)];
    let wp = w.wrong_password.map_values(|x: WrongPasswordView| wrong_password_line(x));
    let l1 = last_save_lines(w.saves, seconds, "save"@);
    let l2 = last_save_lines(w.saves, seconds, "backup"@);
    let hs = histogram_section(w, below, save_sum, backup_sum);
    let e = Seq::<Seq<char>>::empty();
    assert forall|j: int| 0 <= j < o1.len() implies !starts_with(#[trigger] o1[j], p) by {
        lemma_differs_at(o1[j], p, 14);
    }
    assert forall|j: int| 0 <= j < o2.len() implies !starts_with(#[trigger] o2[j], p) by {
        lemma_differs_at(o2[j], p, 14);
    }
    assert forall|j: int| 0 <= j < o3.len() implies !starts_with(#[trigger] o3[j], p) by {
        lemma_differs_at(o3[j], p, 14);
    }
    assert forall|j: int| 0 <= j < rpc.len() implies !starts_with(#[trigger] rpc[j], p) by {
        lemma_differs_at(rpc[j], p, 8);
    }
    assert forall|j: int| 0 <= j < wp.len() implies !starts_with(#[trigger] wp[j], p) by {
        lemma_differs_at(wp[j], p, 9);
    }
    assert forall|j: int| 0 <= j < l1.len() implies !starts_with(#[trigger] l1[j], p) by {
        lemma_differs_at(l1[j], p, 14);
    }
    assert forall|j: int| 0 <= j < l2.len() implies !starts_with(#[trigger] l2[j], p) by {
        lemma_differs_at(l2[j], p, 14);
    }
    lemma_prefix_none(o1, p);
    lemma_prefix_none(o2, p);
    lemma_prefix_none(o3, p);
    lemma_prefix_none(rpc, p);
    lemma_prefix_none(wp, p);
    lemma_prefix_none(l1, p);
    lemma_prefix_none(l2, p);
    let mine = if count_of_kind(w.saves, kind, w.saves.len() as int) > 0 {
        seq![p + if kind == "save"@ { save_sum } else { backup_sum }]
    } else {
        e
    };
    // the histogram part
    if w.saves.len() > 0 {
        let head = "# TYPE valheim_world_save_duration_seconds histogram"@;
        let h1 = histogram_lines(w.saves, below, "save"@, save_sum);
        let h2 = histogram_lines(w.saves, below, "backup"@, backup_sum);
        assert(hs == seq![head] + h1 + h2);
        lemma_differs_at(head, p, 0);
        lemma_prefix_single(head, p);
        lemma_sum_in_histogram(w.saves, below, kind, "save"@, save_sum);
        lemma_sum_in_histogram(w.saves, below, kind, "backup"@, backup_sum);
        lemma_prefix_concat(seq![head], h1, p);
        lemma_prefix_concat(seq![head] + h1, h2, p);
        if kind == "save"@ {
            assert(kind != "backup"@);
            assert(e + lines_with_prefix(h1, p) + e =~= lines_with_prefix(h1, p));
        } else {
            assert(kind != "save"@);
            assert(e + e + lines_with_prefix(h2, p) =~= lines_with_prefix(h2, p));
        }
        assert(lines_with_prefix(hs, p) == mine);
    } else {
        assert(count_of_kind(w.saves, kind, w.saves.len() as int) == 0);
        assert(hs == e);
        assert(lines_with_prefix(e, p) == e);
        assert(lines_with_prefix(hs, p) == mine);
    }
    lemma_prefix_concat(o1, o2, p);
    lemma_prefix_concat(o1 + o2, o3, p);
    lemma_prefix_concat(o1 + o2 + o3, rpc, p);
    lemma_prefix_concat(o1 + o2 + o3 + rpc, wp, p);
    lemma_prefix_concat(o1 + o2 + o3 + rpc + wp, l1, p);
    lemma_prefix_concat(o1 + o2 + o3 + rpc + wp + l1, l2, p);
    lemma_prefix_concat(o1 + o2 + o3 + rpc + wp + l1 + l2, hs, p);
    assert(e + e + e + e + e + e + e + mine =~= mine);
}

/// The lines of the world metrics that begin with `p`, part by part.
proof fn lemma_world_prefix_split(
    w: WorldView,
    seconds: Seq<Seq<char>>,
    below: Seq<usize>,
    save_sum: Seq<char>,
    backup_sum: Seq<char>,
    p: Seq<char>,
)
    ensures
        lines_with_prefix(world_metric_lines(w, seconds, below, save_sum, backup_sum), p)
            == lines_with_prefix(optional_line("valheim_world_zdo_count "@, u64_text(w.zdo_count)), p)
            + lines_with_prefix(optional_line("valheim_world_day "@, u32_text(w.day)), p)
            + lines_with_prefix(
            optional_line("valheim_world_load_seconds "@, i128_text(w.load_seconds)),
            p,
        ) + lines_with_prefix(seq!["valheim_rpc_timeouts_total "@ + decimal(w.rpc_timeouts)], p)
            + lines_with_prefix(
            w.wrong_password.map_values(|x: WrongPasswordView| wrong_password_line(x)),
            p,
        ) + lines_with_prefix(last_save_lines(w.saves, seconds, "save"@), p) + lines_with_prefix(
            last_save_lines(w.saves, seconds, "backup"@),
            p,
        ) + lines_with_prefix(histogram_section(w, below, save_sum, backup_sum), p),
{
    let o1 = optional_line("valheim_world_zdo_count "@, u64_text(w.zdo_count));
    let o2 = optional_line("valheim_world_day "@, u32_text(w.day));
    let o3 = optional_line("valheim_world_load_seconds "@, i128_text(w.load_seconds));
    let rpc = seq!["valheim_rpc_timeouts_total "@ + decimal(w.rpc_timeouts)];
    let wp = w.wrong_password.map_values(|x: WrongPasswordView| wrong_password_line(x));
    let l1 = last_save_lines(w.saves, seconds, "save"@);
    let l2 = last_save_lines(w.saves, seconds, "backup"@);
    let hs = histogram_section(w, below, save_sum, backup_sum);
    lemma_prefix_concat(o1, o2, p);
    lemma_prefix_concat(o1 + o2, o3, p);
    lemma_prefix_concat(o1 + o2 + o3, rpc, p);
    lemma_prefix_concat(o1 + o2 + o3 + rpc, wp, p);
    lemma_prefix_concat(o1 + o2 + o3 + rpc + wp, l1, p);
    lemma_prefix_concat(o1 + o2 + o3 + rpc + wp + l1, l2, p);
    lemma_prefix_concat(o1 + o2 + o3 + rpc + wp + l1 + l2, hs, p);
}

/// No line of the histograms begins with a prefix that starts with
/// `valheim_` and differs from the histogram name at place `k`.
proof fn lemma_histogram_lacks(
    w: WorldView,
    below: Seq<usize>,
    save_sum: Seq<char>,
    backup_sum: Seq<char>,
    p: Seq<char>,
    k: int,
)
    requires
        8 <= k < 36,
        k < p.len(),
        p[0] == 'v',
        p[k] != "valheim_world_save_duration_seconds_"@[k],
    ensures
        lines_with_prefix(histogram_section(w, below, save_sum, backup_sum), p) == Seq::<Seq<char>>::empty(),
{
    reveal_strlit("# TYPE valheim_world_save_duration_seconds histogram");
    reveal_strlit("valheim_world_save_duration_seconds_");
    let hs = histogram_section(w, below, save_sum, backup_sum);
    assert forall|j: int| 0 <= j < hs.len() implies !starts_with(#[trigger] hs[j], p) by {
        lemma_histogram_heads(w, below, save_sum, backup_sum, j);
        if hs[j] == "# TYPE valheim_world_save_duration_seconds histogram"@ {
            lemma_differs_at(hs[j], p, 0);
        } else {
            assert(hs[j].take(36)[k] == hs[j][k]);
            lemma_differs_at(hs[j], p, k);
        }
    }
    lemma_prefix_none(hs, p);
}

/// No line of `part` begins with `q` when each differs from it at place `k`.
proof fn lemma_part_lacks(part: Seq<Seq<char>>, q: Seq<char>, k: int)
    requires
        0 <= k < q.len(),
        forall|j: int| 0 <= j < part.len() ==> k < (#[trigger] part[j]).len() && part[j][k] != q[k],
    ensures
        lines_with_prefix(part, q) == Seq::<Seq<char>>::empty(),
{
    assert forall|j: int| 0 <= j < part.len() implies !starts_with(#[trigger] part[j], q) by {
        lemma_differs_at(part[j], q, k);
    }
    lemma_prefix_none(part, q);
}

/// The object count, the day and the load time each have a sample exactly when
/// they are known, carrying their value; the RPC timeouts always have exactly
/// one sample, carrying their count.
pub proof fn lemma_world_scalar_samples(
    w: WorldView,
    seconds: Seq<Seq<char>>,
    below: Seq<usize>,
    save_sum: Seq<char>,
    backup_sum: Seq<char>,
)
    ensures
        ({
            let lines = world_metric_lines(w, seconds, below, save_sum, backup_sum);
            &&& lines_with_prefix(lines, "valheim_world_zdo_count "@) == match w.zdo_count {
                Some(n) => seq!["valheim_world_zdo_count "@ + decimal(n as nat)],
                None => Seq::<Seq<char>>::empty(),
            }
            &&& lines_with_prefix(lines, "valheim_world_day "@) == match w.day {
                Some(n) => seq!["valheim_world_day "@ + decimal(n as nat)],
                None => Seq::<Seq<char>>::empty(),
            }
            &&& lines_with_prefix(lines, "valheim_world_load_seconds "@) == match w.load_seconds {
                Some(n) => seq!["valheim_world_load_seconds "@ + signed_decimal(n as int)],
                None => Seq::<Seq<char>>::empty(),
            }
            &&& lines_with_prefix(lines, "valheim_rpc_timeouts_total "@) == seq![
                "valheim_rpc_timeouts_total "@ + decimal(w.rpc_timeouts),
            ]
        }),
{
    reveal_strlit("save");
    reveal_strlit("backup");
    reveal_strlit("valheim_wrong_password_total{steam_id=\"");
    reveal_strlit("valheim_world_zdo_count ");
    reveal_strlit("valheim_world_day ");
    reveal_strlit("valheim_world_load_seconds ");
    reveal_strlit("valheim_rpc_timeouts_total ");
    reveal_strlit("valheim_world_last_save_seconds{type=\"");
    reveal_strlit("valheim_world_last_save_timestamp_seconds{type=\"");
    reveal_strlit("valheim_world_save_duration_seconds_");
    let o1 = optional_line("valheim_world_zdo_count "@, u64_text(w.zdo_count));
    let o2 = optional_line("valheim_world_day "@, u32_text(w.day));
    let o3 = optional_line("valheim_world_load_seconds "@, i128_text(w.load_seconds));
    let rpc = seq!["valheim_rpc_timeouts_total "@ + decimal(w.rpc_timeouts)];
    let wp = w.wrong_password.map_values(|x: WrongPasswordView| wrong_password_line(x));
    let l1 = last_save_lines(w.saves, seconds, "save"@);
    let l2 = last_save_lines(w.saves, seconds, "backup"@);
    let e = Seq::<Seq<char>>::empty();
    let pz = "valheim_world_zdo_count "@;
    let pd = "valheim_world_day "@;
    let pl = "valheim_world_load_seconds "@;
    let pr = "valheim_rpc_timeouts_total "@;
    assert forall|j: int| 0 <= j < o1.len() implies starts_with(#[trigger] o1[j], pz) by {
        assert(o1[j].take(pz.len() as int) =~= pz);
    }
    assert forall|j: int| 0 <= j < o2.len() implies starts_with(#[trigger] o2[j], pd) by {
        assert(o2[j].take(pd.len() as int) =~= pd);
    }
    assert forall|j: int| 0 <= j < o3.len() implies starts_with(#[trigger] o3[j], pl) by {
        assert(o3[j].take(pl.len() as int) =~= pl);
    }
    assert forall|j: int| 0 <= j < rpc.len() implies starts_with(#[trigger] rpc[j], pr) by {
        assert(rpc[j].take(pr.len() as int) =~= pr);
    }
    lemma_prefix_all(o1, pz);
    lemma_prefix_all(o2, pd);
    lemma_prefix_all(o3, pl);
    lemma_prefix_all(rpc, pr);
    // the object count
    lemma_part_lacks(o2, pz, 14);
    lemma_part_lacks(o3, pz, 14);
    lemma_part_lacks(rpc, pz, 8);
    lemma_part_lacks(wp, pz, 9);
    lemma_part_lacks(l1, pz, 14);
    lemma_part_lacks(l2, pz, 14);
    // the day
    lemma_part_lacks(o1, pd, 14);
    lemma_part_lacks(o3, pd, 14);
    lemma_part_lacks(rpc, pd, 8);
    lemma_part_lacks(wp, pd, 9);
    lemma_part_lacks(l1, pd, 14);
    lemma_part_lacks(l2, pd, 14);
    // the load time
    lemma_part_lacks(o1, pl, 14);
    lemma_part_lacks(o2, pl, 14);
    lemma_part_lacks(rpc, pl, 8);
    lemma_part_lacks(wp, pl, 9);
    lemma_part_lacks(l1, pl, 15);
    lemma_part_lacks(l2, pl, 15);
    // the RPC timeouts
    lemma_part_lacks(o1, pr, 8);
    lemma_part_lacks(o2, pr, 8);
    lemma_part_lacks(o3, pr, 8);
    lemma_part_lacks(wp, pr, 8);
    lemma_part_lacks(l1, pr, 8);
    lemma_part_lacks(l2, pr, 8);
    lemma_histogram_lacks(w, below, save_sum, backup_sum, pz, 14);
    lemma_histogram_lacks(w, below, save_sum, backup_sum, pd, 14);
    lemma_histogram_lacks(w, below, save_sum, backup_sum, pl, 14);
    lemma_histogram_lacks(w, below, save_sum, backup_sum, pr, 8);
    lemma_world_prefix_split(w, seconds, below, save_sum, backup_sum, pz);
    lemma_world_prefix_split(w, seconds, below, save_sum, backup_sum, pd);
    lemma_world_prefix_split(w, seconds, below, save_sum, backup_sum, pl);
    lemma_world_prefix_split(w, seconds, below, save_sum, backup_sum, pr);
    assert(o1 + e + e + e + e + e + e + e =~= o1);
    assert(e + o2 + e + e + e + e + e + e =~= o2);
    assert(e + e + o3 + e + e + e + e + e =~= o3);
    assert(e + e + e + rpc + e + e + e + e =~= rpc);
}

pub open spec fn count_prefix(kind: Seq<char>) -> Seq<char> {
    "valheim_world_save_duration_seconds_count{type=\""@ + kind + "\"} "@
}

/// Among the lines of one kind's histogram, only its count line begins like
/// the count line of `kind`, and only when the two kinds agree.
proof fn lemma_count_in_histogram(
    saves: Seq<SaveView>,
    below: Seq<usize>,
    kind: Seq<char>,
    k2: Seq<char>,
    sum: Seq<char>,
)
    requires
        kind == "save"@ || kind == "backup"@,
        k2 == "save"@ || k2 == "backup"@,
    ensures
        lines_with_prefix(histogram_lines(saves, below, k2, sum), count_prefix(kind)) == if kind == k2
            && count_of_kind(saves, k2, saves.len() as int) > 0 {
            seq![count_prefix(kind) + decimal(count_of_kind(saves, k2, saves.len() as int))]
        } else {
            Seq::<Seq<char>>::empty()
        },
{
    reveal_strlit("save");
    reveal_strlit("backup");
    reveal_strlit("valheim_world_save_duration_seconds_sum{type=\"");
    reveal_strlit("valheim_world_save_duration_seconds_bucket{type=\"");
    reveal_strlit("valheim_world_save_duration_seconds_count{type=\"");
    reveal_strlit("\"} ");
    let p = count_prefix(kind);
    let h = histogram_lines(saves, below, k2, sum);
    let n = count_of_kind(saves, k2, saves.len() as int);
    let e = Seq::<Seq<char>>::empty();
    assert(p.len() == 51 + kind.len());
    assert(p[36] == 'c' && p[48] == kind[0]);
    if n == 0 {
        assert(h == e);
        assert(lines_with_prefix(e, p) == e);
    } else {
        let b = Seq::new(
            BUCKET_COUNT as nat,
            |j: int| bucket_line(k2, bucket_bounds()[j], bucket_count(saves, below, k2, j, saves.len() as int)),
        );
        let inf = bucket_line(k2, "+Inf"@, n);
        let sl = "valheim_world_save_duration_seconds_sum{type=\""@ + k2 + "\"} "@ + sum;
        let cl = "valheim_world_save_duration_seconds_count{type=\""@ + k2 + "\"} "@ + decimal(n);
        assert(h == b + seq![inf, sl, cl]);
        assert forall|j: int| 0 <= j < b.len() implies !starts_with(#[trigger] b[j], p) by {
            lemma_differs_at(b[j], p, 36);
        }
        lemma_prefix_none(b, p);
        lemma_differs_at(inf, p, 36);
        lemma_differs_at(sl, p, 36);
        lemma_prefix_single(inf, p);
        lemma_prefix_single(sl, p);
        lemma_prefix_single(cl, p);
        if kind == k2 {
            assert(cl == p + decimal(n));
            assert(cl.take(p.len() as int) =~= p);
        } else {
            assert(kind[0] != k2[0]);
            lemma_differs_at(cl, p, 48);
        }
        assert(seq![inf, sl, cl] =~= seq![inf] + seq![sl] + seq![cl]);
        lemma_prefix_concat(seq![inf], seq![sl], p);
        lemma_prefix_concat(seq![inf] + seq![sl], seq![cl], p);
        lemma_prefix_concat(b, seq![inf, sl, cl], p);
        if kind == k2 {
            assert(e + (e + e + seq![cl]) =~= seq![cl]);
        } else {
            assert(e + (e + e + e) =~= e);
        }
    }
}

/// The count sample of each kind's histogram gives how many saves of that
/// kind are kept; it is the only line that begins like it, and a kind without
/// saves has none.
pub proof fn lemma_histogram_counts(
    w: WorldView,
    seconds: Seq<Seq<char>>,
    below: Seq<usize>,
    save_sum: Seq<char>,
    backup_sum: Seq<char>,
    kind: Seq<char>,
)
    requires
        kind == "save"@ || kind == "backup"@,
    ensures
        ({
            let lines = world_metric_lines(w, seconds, below, save_sum, backup_sum);
            let n = count_of_kind(w.saves, kind, w.saves.len() as int);
            &&& n > 0 ==> lines_with_prefix(lines, count_prefix(kind)) == seq![
                count_prefix(kind) + decimal(n),
            ]
            &&& n == 0 ==> lines_with_prefix(lines, count_prefix(kind)).len() == 0
        }),
{
    reveal_strlit("save");
    reveal_strlit("backup");
    reveal_strlit("\"} ");
    reveal_strlit("valheim_wrong_password_total{steam_id=\"");
    reveal_strlit("valheim_world_zdo_count ");
    reveal_strlit("valheim_world_day ");
    reveal_strlit("valheim_world_load_seconds ");
    reveal_strlit("valheim_rpc_timeouts_total ");
    reveal_strlit("valheim_world_last_save_seconds{type=\"");
    reveal_strlit("valheim_world_last_save_timestamp_seconds{type=\"");
    reveal_strlit("# TYPE valheim_world_save_duration_seconds histogram");
    reveal_strlit("valheim_world_save_duration_seconds_count{type=\"");
    let p = count_prefix(kind);
    assert(p.len() == 51 + kind.len());
    assert(p[0] == 'v' && p[8] == 'w' && p[9] == 'o' && p[14] == 's');
    let e = Seq::<Seq<char>>::empty();
    lemma_part_lacks(optional_line("valheim_world_zdo_count "@, u64_text(w.zdo_count)), p, 14);
    lemma_part_lacks(optional_line("valheim_world_day "@, u32_text(w.day)), p, 14);
    lemma_part_lacks(optional_line("valheim_world_load_seconds "@, i128_text(w.load_seconds)), p, 14);
    lemma_part_lacks(seq!["valheim_rpc_timeouts_total "@ + decimal(w.rpc_timeouts)], p, 8);
    lemma_part_lacks(w.wrong_password.map_values(|x: WrongPasswordView| wrong_password_line(x)), p, 9);
    lemma_part_lacks(last_save_lines(w.saves, seconds, "save"@), p, 14);
    lemma_part_lacks(last_save_lines(w.saves, seconds, "backup"@), p, 14);
    lemma_world_prefix_split(w, seconds, below, save_sum, backup_sum, p);
    let n = count_of_kind(w.saves, kind, w.saves.len() as int);
    let mine = if n > 0 { seq![p + decimal(n)] } else { e };
    let hs = histogram_section(w, below, save_sum, backup_sum);
    if w.saves.len() > 0 {
        let head = "# TYPE valheim_world_save_duration_seconds histogram"@;
        let h1 = histogram_lines(w.saves, below, "save"@, save_sum);
        let h2 = histogram_lines(w.saves, below, "backup"@, backup_sum);
        assert(hs == seq![head] + h1 + h2);
        lemma_differs_at(head, p, 0);
        lemma_prefix_single(head, p);
        lemma_count_in_histogram(w.saves, below, kind, "save"@, save_sum);
        lemma_count_in_histogram(w.saves, below, kind, "backup"@, backup_sum);
        lemma_prefix_concat(seq![head], h1, p);
        lemma_prefix_concat(seq![head] + h1, h2, p);
        if kind == "save"@ {
            assert(kind != "backup"@);
            assert(e + lines_with_prefix(h1, p) + e =~= lines_with_prefix(h1, p));
        } else {
            assert(kind != "save"@);
            assert(e + e + lines_with_prefix(h2, p) =~= lines_with_prefix(h2, p));
        }
        assert(lines_with_prefix(hs, p) == mine);
    } else {
        assert(n == 0);
        assert(hs == e);
        assert(lines_with_prefix(e, p) == e);
        assert(lines_with_prefix(hs, p) == mine);
    }
    assert(e + e + e + e + e + e + e + mine =~= mine);
}

pub open spec fn lines_view(v: Seq<String>) -> Seq<Seq<char>> {
    v.map_values(|s: String| s@)
}

fn push_line(out: &mut Vec<String>, line: String)
    ensures
        lines_view(final(out)@) == lines_view(old(out)@).push(line@),
{
    out.push(line);
    assert(lines_view(out@) =~= lines_view(old(out)@).push(line@));
}

fn text_line(text: &str) -> (line: String)
    ensures
        line@ == text@,
{
    let mut line = String::new();
    push_str(&mut line, text);
    assert(line@ =~= text@);
    line
}

fn count_line(name: &str, n: u64) -> (line: String)
    ensures
        line@ == name@ + decimal(n as nat),
{
    let mut line = String::new();
    push_str(&mut line, name);
    push_decimal(&mut line, n as u128);
    line
}

fn kind_line(name: &str, kind: &str, close: &str) -> (line: String)
    ensures
        line@ == name@ + kind@ + close@,
{
    let mut line = String::new();
    push_str(&mut line, name);
    push_str(&mut line, kind);
    push_str(&mut line, close);
    line
}

fn latest_save_lines(out: &mut Vec<String>, saves: &Vec<Save>, seconds: &Vec<String>, kind: &str)
    requires
        seconds@.len() == saves@.len(),
    ensures
        lines_view(final(out)@) == lines_view(old(out)@) + last_save_lines(
            saves@.map_values(|s: Save| s@),
            lines_view(seconds@),
            kind@,
        ),
{
    let ghost sv = saves@.map_values(|s: Save| s@);
    let k = kind.to_owned();
    let mut last: Option<usize> = None;
    let mut i: usize = 0;
    while i < saves.len()
        invariant
            i <= saves@.len(),
            sv == saves@.map_values(|s: Save| s@),
            k@ == kind@,
            match last {
                Some(j) => j < i && last_of_kind(sv, kind@, i as int) == j,
                None => last_of_kind(sv, kind@, i as int) == -1,
            },
        decreases saves@.len() - i,
    {
        if saves[i].kind == k {
            last = Some(i);
        }
        i = i + 1;
    }
    match last {
        Some(j) => {
            let mut a = kind_line("valheim_world_last_save_seconds{type=\"", kind, "\"} ");
            push_str(&mut a, seconds[j].as_str());
            let mut b = kind_line("valheim_world_last_save_timestamp_seconds{type=\"", kind, "\"} ");
            push_signed_decimal(&mut b, saves[j].at as i128);
            push_line(out, a);
            push_line(out, b);
            assert(lines_view(out@) =~= lines_view(old(out)@) + last_save_lines(
                sv,
                lines_view(seconds@),
                kind@,
            ));
        },
        None => {
            assert(lines_view(out@) =~= lines_view(old(out)@) + last_save_lines(
                sv,
                lines_view(seconds@),
                kind@,
            ));
        },
    }
}

fn histogram(out: &mut Vec<String>, saves: &Vec<Save>, below: &Vec<usize>, kind: &str, sum: &str)
    requires
        below@.len() == saves@.len(),
    ensures
        lines_view(final(out)@) == lines_view(old(out)@) + histogram_lines(
            saves@.map_values(|s: Save| s@),
            below@,
            kind@,
            sum@,
        ),
{
    let ghost sv = saves@.map_values(|s: Save| s@);
    let k = kind.to_owned();
    let n = saves.len();
    let mut total: u64 = 0;
    let mut i: usize = 0;
    while i < n
        invariant
            n == saves@.len(),
            i <= n,
            sv == saves@.map_values(|s: Save| s@),
            k@ == kind@,
            total as nat == count_of_kind(sv, kind@, i as int),
            total <= i,
        decreases n - i,
    {
        if saves[i].kind == k {
            total = total + 1;
        }
        i = i + 1;
    }
    if total == 0 {
        assert(lines_view(out@) =~= lines_view(old(out)@) + histogram_lines(sv, below@, kind@, sum@));
        return;
    }
    let ghost start = lines_view(out@);
    let ghost buckets = Seq::new(
        BUCKET_COUNT as nat,
        |b: int| bucket_line(kind@, bucket_bounds()[b], bucket_count(sv, below@, kind@, b, n as int)),
    );
    let mut b: usize = 0;
    while b < BUCKET_COUNT
        invariant
            b <= BUCKET_COUNT,
            n == saves@.len(),
            n == below@.len(),
            sv == saves@.map_values(|s: Save| s@),
            k@ == kind@,
            lines_view(out@) == start + buckets.take(b as int),
            buckets == Seq::new(
                BUCKET_COUNT as nat,
                |b: int| bucket_line(kind@, bucket_bounds()[b], bucket_count(sv, below@, kind@, b, n as int)),
            ),
        decreases BUCKET_COUNT - b,
    {
        let mut c: u64 = 0;
        let mut j: usize = 0;
        while j < n
            invariant
                n == saves@.len(),
                n == below@.len(),
                j <= n,
                sv == saves@.map_values(|s: Save| s@),
                k@ == kind@,
                c as nat == bucket_count(sv, below@, kind@, b as int, j as int),
                c <= j,
            decreases n - j,
        {
            if saves[j].kind == k && below[j] <= b {
                c = c + 1;
            }
            j = j + 1;
        }
        let mut line = kind_line("valheim_world_save_duration_seconds_bucket{type=\"", kind, "\", le=\"");
        push_str(&mut line, bucket_bound(b));
        push_str(&mut line, "\"} ");
        push_decimal(&mut line, c as u128);
        push_line(out, line);
        b = b + 1;
        assert(lines_view(out@) =~= start + buckets.take(b as int));
    }
    assert(buckets.take(BUCKET_COUNT as int) =~= buckets);
    let mut inf = kind_line("valheim_world_save_duration_seconds_bucket{type=\"", kind, "\", le=\"");
    push_str(&mut inf, "+Inf");
    push_str(&mut inf, "\"} ");
    push_decimal(&mut inf, total as u128);
    push_line(out, inf);
    let mut s = kind_line("valheim_world_save_duration_seconds_sum{type=\"", kind, "\"} ");
    push_str(&mut s, sum);
    push_line(out, s);
    let mut cnt = kind_line("valheim_world_save_duration_seconds_count{type=\"", kind, "\"} ");
    push_decimal(&mut cnt, total as u128);
    push_line(out, cnt);
    assert(lines_view(out@) =~= lines_view(old(out)@) + histogram_lines(sv, below@, kind@, sum@));
}

/// The metrics parsed from the server log into the world statistics, one
/// Prometheus sample per line. What only floating-point arithmetic can tell
/// (which buckets each save falls in, and the sums) comes in `durations`.
pub fn world_metrics(world: &WorldStats, durations: &SaveDurations) -> (lines: Vec<String>)
    requires
        durations.seconds@.len() == world.saves@.len(),
        durations.buckets_below@.len() == world.saves@.len(),
    ensures
        lines_view(lines@) == world_metric_lines(
            world@,
            lines_view(durations.seconds@),
            durations.buckets_below@,
            durations.save_sum@,
            durations.backup_sum@,
        ),
{
    let ghost w = world@;
    let mut out: Vec<String> = Vec::new();
    match world.zdo_count {
        Some(n) => push_line(&mut out, count_line("valheim_world_zdo_count ", n)),
        None => {},
    }
    match world.day {
        Some(n) => push_line(&mut out, count_line("valheim_world_day ", n as u64)),
        None => {},
    }
    match world.load_seconds {
        Some(s) => {
            let mut line = String::new();
            push_str(&mut line, "valheim_world_load_seconds ");
            push_signed_decimal(&mut line, s);
            push_line(&mut out, line);
        },
        None => {},
    }
    push_line(&mut out, count_line("valheim_rpc_timeouts_total ", world.rpc_timeouts));
    let ghost head = lines_view(out@);
    assert(head =~= optional_line("valheim_world_zdo_count "@, u64_text(w.zdo_count)) + optional_line(
        "valheim_world_day "@,
        u32_text(w.day),
    ) + optional_line("valheim_world_load_seconds "@, i128_text(w.load_seconds)) + seq![
        "valheim_rpc_timeouts_total "@ + decimal(w.rpc_timeouts),
    ]);
    let ghost wp = w.wrong_password.map_values(|x: WrongPasswordView| wrong_password_line(x));
    let mut i: usize = 0;
    while i < world.wrong_password.len()
        invariant
            i <= world.wrong_password@.len(),
            w.wrong_password == world.wrong_password@.map_values(|x: WrongPassword| x@),
            wp == w.wrong_password.map_values(|x: WrongPasswordView| wrong_password_line(x)),
            lines_view(out@) == head + wp.take(i as int),
        decreases world.wrong_password@.len() - i,
    {
        let entry = &world.wrong_password[i];
        let mut line = String::new();
        push_str(&mut line, "valheim_wrong_password_total{steam_id=\"");
        push_str(&mut line, entry.steam_id.as_str());
        push_str(&mut line, "\", name=\"");
        let escaped = escape_prom_label_value(entry.name.as_str());
        push_str(&mut line, escaped.as_str());
        push_str(&mut line, "\"} ");
        push_decimal(&mut line, entry.count as u128);
        push_line(&mut out, line);
        i = i + 1;
        assert(lines_view(out@) =~= head + wp.take(i as int));
    }
    assert(wp.take(wp.len() as int) =~= wp);
    assert(world.saves@.map_values(|s: Save| s@) =~= w.saves);
    latest_save_lines(&mut out, &world.saves, &durations.seconds, "save");
    latest_save_lines(&mut out, &world.saves, &durations.seconds, "backup");
    let ghost body = lines_view(out@);
    let ghost st = lines_view(durations.seconds@);
    assert(body =~= head + wp + last_save_lines(w.saves, st, "save"@) + last_save_lines(
        w.saves,
        st,
        "backup"@,
    ));
    if world.saves.len() > 0 {
        push_line(&mut out, text_line("# TYPE valheim_world_save_duration_seconds histogram"));
        histogram(&mut out, &world.saves, &durations.buckets_below, "save", durations.save_sum.as_str());
        histogram(
            &mut out,
            &world.saves,
            &durations.buckets_below,
            "backup",
            durations.backup_sum.as_str(),
        );
    }
    assert(lines_view(out@) =~= world_metric_lines(
        w,
        lines_view(durations.seconds@),
        durations.buckets_below@,
        durations.save_sum@,
        durations.backup_sum@,
    ));
    out
}

/// What the Steam query says of the server.
pub struct ServerInfo {
    pub name: String,
    pub version: String,
    pub map: String,
    /// Whether the server answered the query.
    pub online: bool,
    pub players: u64,
    pub max_players: u64,
    /// Whether BepInEx is installed.
    pub bepinex_enabled: bool,
}

/// A player online, by the name the server log gives.
pub struct OnlinePlayer {
    pub name: String,
    /// Unix time the player joined.
    pub joined_at: i64,
}

/// The labels on every server metric: the server name, its version tag and
/// its world.
pub open spec fn server_labels(info: ServerInfo) -> Seq<char> {
    "{name=\""@ + escape_label(info.name@) + "\", version=\""@ + escape_label(info.version@)
        + "\", map=\""@ + escape_label(info.map@) + "\"}"@
}

pub open spec fn flag(b: bool) -> Seq<char> {
    if b {
        "1"@
    } else {
        "0"@
    }
}

/// The server metrics: whether it is online, its player count and slots, and
/// whether BepInEx is installed, each with the server labels.
pub open spec fn server_metric_lines(info: ServerInfo) -> Seq<Seq<char>> {
    let labels = server_labels(info);
    seq![
        "valheim_online"@ + labels + " "@ + flag(info.online),
        "valheim_current_player_count"@ + labels + " "@ + decimal(info.players as nat),
        "valheim_max_player_count"@ + labels + " "@ + decimal(info.max_players as nat),
        "valheim_bepinex_installed"@ + labels + " "@ + flag(info.bepinex_enabled),
    ]
}

/// The two samples of one player online.
pub open spec fn player_lines(p: OnlinePlayer) -> Seq<Seq<char>> {
    seq![
        "valheim_player_online{player=\""@ + escape_label(p.name@) + "\"} 1"@,
        "valheim_player_joined_timestamp_seconds{player=\""@ + escape_label(p.name@) + "\"} "@
            + signed_decimal(p.joined_at as int),
    ]
}

/// The samples of each player online, in order.
pub open spec fn player_metric_lines(players: Seq<OnlinePlayer>) -> Seq<Seq<char>> {
    players.map_values(|p: OnlinePlayer| player_lines(p)).flatten()
}

/// The server samples are four, in a fixed order; the first says whether the
/// server answered its query, `1` or `0`, and nothing else about the server
/// bears on it: two servers that differ only in players, slots or BepInEx
/// have the same online sample.
pub proof fn lemma_server_samples(info: ServerInfo, other: ServerInfo)
    ensures
        server_metric_lines(info).len() == 4,
        server_metric_lines(info)[0] == "valheim_online"@ + server_labels(info) + " "@ + seq![
            if info.online { '1' } else { '0' },
        ],
        server_metric_lines(info)[1] == "valheim_current_player_count"@ + server_labels(info) + " "@
            + decimal(info.players as nat),
        server_metric_lines(info)[2] == "valheim_max_player_count"@ + server_labels(info) + " "@
            + decimal(info.max_players as nat),
        server_metric_lines(info)[3] == "valheim_bepinex_installed"@ + server_labels(info) + " "@
            + seq![if info.bepinex_enabled { '1' } else { '0' }],
        other.name@ == info.name@ && other.version@ == info.version@ && other.map@ == info.map@
            && other.online == info.online ==> server_metric_lines(other)[0]
            == server_metric_lines(info)[0],
{
    reveal_strlit("1");
    reveal_strlit("0");
    assert(flag(info.online) =~= seq![if info.online { '1' } else { '0' }]);
    assert(flag(info.bepinex_enabled) =~= seq![if info.bepinex_enabled { '1' } else { '0' }]);
}

/// Every player online has exactly two samples, in the order of the players:
/// line `2 i` says player `i` is online, line `2 i + 1` gives when they joined.
pub proof fn lemma_two_samples_per_player(players: Seq<OnlinePlayer>)
    ensures
        player_metric_lines(players).len() == 2 * players.len(),
        forall|i: int|
            0 <= i < players.len() ==> #[trigger] player_metric_lines(players)[2 * i]
                == "valheim_player_online{player=\""@ + escape_label(players[i].name@) + "\"} 1"@,
        forall|i: int|
            0 <= i < players.len() ==> #[trigger] player_metric_lines(players)[2 * i + 1]
                == "valheim_player_joined_timestamp_seconds{player=\""@ + escape_label(players[i].name@)
                + "\"} "@ + signed_decimal(players[i].joined_at as int),
    decreases players.len(),
{
    let f = |p: OnlinePlayer| player_lines(p);
    if players.len() == 0 {
        assert(players.map_values(f) =~= Seq::<Seq<Seq<char>>>::empty());
        assert(player_metric_lines(players) =~= Seq::<Seq<char>>::empty());
    } else {
        let ps = players.drop_last();
        let last = players.last();
        lemma_two_samples_per_player(ps);
        assert(players.map_values(f) =~= ps.map_values(f).push(player_lines(last)));
        ps.map_values(f).lemma_flatten_push(player_lines(last));
        let before = player_metric_lines(ps);
        let all = player_metric_lines(players);
        assert(all == before + player_lines(last));
        assert forall|i: int| 0 <= i < players.len() implies #[trigger] all[2 * i]
            == "valheim_player_online{player=\""@ + escape_label(players[i].name@) + "\"} 1"@ by {
            if i < ps.len() {
                assert(before[2 * i] == "valheim_player_online{player=\""@ + escape_label(ps[i].name@)
                    + "\"} 1"@);
                assert(ps[i] == players[i]);
            }
        }
        assert forall|i: int| 0 <= i < players.len() implies #[trigger] all[2 * i + 1]
            == "valheim_player_joined_timestamp_seconds{player=\""@ + escape_label(players[i].name@)
            + "\"} "@ + signed_decimal(players[i].joined_at as int) by {
            if i < ps.len() {
                assert(before[2 * i + 1] == "valheim_player_joined_timestamp_seconds{player=\""@
                    + escape_label(ps[i].name@) + "\"} "@ + signed_decimal(ps[i].joined_at as int));
                assert(ps[i] == players[i]);
            }
        }
    }
}

/// The lines with a line break between each two.
pub open spec fn joined(lines: Seq<Seq<char>>) -> Seq<char>
    decreases lines.len(),
{
    if lines.len() == 0 {
        Seq::empty()
    } else if lines.len() == 1 {
        lines[0]
    } else {
        joined(lines.drop_last()) + "\n"@ + lines.last()
    }
}

fn push_flag(out: &mut String, b: bool)
    ensures
        final(out)@ == old(out)@ + flag(b),
{
    if b {
        push_str(out, "1");
    } else {
        push_str(out, "0");
    }
}

/// The server metrics (see `server_metric_lines`).
pub fn server_metrics(info: &ServerInfo) -> (lines: Vec<String>)
    ensures
        lines_view(lines@) == server_metric_lines(*info),
{
    let mut labels = String::new();
    push_str(&mut labels, "{name=\"");
    push_str(&mut labels, escape_prom_label_value(info.name.as_str()).as_str());
    push_str(&mut labels, "\", version=\"");
    push_str(&mut labels, escape_prom_label_value(info.version.as_str()).as_str());
    push_str(&mut labels, "\", map=\"");
    push_str(&mut labels, escape_prom_label_value(info.map.as_str()).as_str());
    push_str(&mut labels, "\"}");
    assert(labels@ =~= server_labels(*info));
    let mut out: Vec<String> = Vec::new();
    let mut a = text_line("valheim_online");
    push_str(&mut a, labels.as_str());
    push_str(&mut a, " ");
    push_flag(&mut a, info.online);
    push_line(&mut out, a);
    let mut b = text_line("valheim_current_player_count");
    push_str(&mut b, labels.as_str());
    push_str(&mut b, " ");
    push_decimal(&mut b, info.players as u128);
    push_line(&mut out, b);
    let mut c = text_line("valheim_max_player_count");
    push_str(&mut c, labels.as_str());
    push_str(&mut c, " ");
    push_decimal(&mut c, info.max_players as u128);
    push_line(&mut out, c);
    let mut d = text_line("valheim_bepinex_installed");
    push_str(&mut d, labels.as_str());
    push_str(&mut d, " ");
    push_flag(&mut d, info.bepinex_enabled);
    push_line(&mut out, d);
    assert(lines_view(out@) =~= server_metric_lines(*info));
    out
}

/// The samples of the players online (see `player_metric_lines`).
pub fn player_metrics(players: &Vec<OnlinePlayer>) -> (lines: Vec<String>)
    ensures
        lines_view(lines@) == player_metric_lines(players@),
{
    let mut out: Vec<String> = Vec::new();
    let mut i: usize = 0;
    while i < players.len()
        invariant
            i <= players@.len(),
            lines_view(out@) == player_metric_lines(players@.take(i as int)),
        decreases players@.len() - i,
    {
        let p = &players[i];
        let escaped = escape_prom_label_value(p.name.as_str());
        let mut a = text_line("valheim_player_online{player=\"");
        push_str(&mut a, escaped.as_str());
        push_str(&mut a, "\"} 1");
        let mut b = text_line("valheim_player_joined_timestamp_seconds{player=\"");
        push_str(&mut b, escaped.as_str());
        push_str(&mut b, "\"} ");
        push_signed_decimal(&mut b, p.joined_at as i128);
        let ghost before = lines_view(out@);
        push_line(&mut out, a);
        push_line(&mut out, b);
        proof {
            let f = |p: OnlinePlayer| player_lines(p);
            assert(players@.take(i + 1).map_values(f) =~= players@.take(i as int).map_values(f).push(
                player_lines(*p),
            ));
            players@.take(i as int).map_values(f).lemma_flatten_push(player_lines(*p));
            assert(lines_view(out@) =~= before + player_lines(*p));
        }
        i = i + 1;
    }
    assert(players@.take(players@.len() as int) =~= players@);
    out
}

/// The text of a scrape: the lines, each ended by a line break.
pub fn metrics_text(lines: &Vec<String>) -> (text: String)
    ensures
        text@ == joined(lines_view(lines@)) + "\n"@,
{
    let mut text = String::new();
    let mut i: usize = 0;
    while i < lines.len()
        invariant
            i <= lines@.len(),
            text@ == joined(lines_view(lines@.take(i as int))),
        decreases lines@.len() - i,
    {
        let ghost before = text@;
        if i > 0 {
            push_str(&mut text, "\n");
        }
        push_str(&mut text, lines[i].as_str());
        proof {
            let l = lines_view(lines@.take(i + 1));
            assert(l.drop_last() =~= lines_view(lines@.take(i as int)));
            if i == 0 {
                assert(text@ =~= l[0]);
            }
        }
        i = i + 1;
    }
    assert(lines@.take(lines@.len() as int) =~= lines@);
    push_str(&mut text, "\n");
    text
}

} // verus!
