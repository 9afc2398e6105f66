//! The text of the view: styled spans for each line of the planet list.
use vstd::prelude::*;

use crate::survey::{
    active, is_active, key_le, sorted_positions, stable_order, stably_sorted, Organic, PlanetView,
    ScanLevel, SignalCounts, SortKey, SpeciesEntry, WillSpawn,
};
use crate::survey::{planet_keys, planet_order, SystemSummary};
use crate::text::{decimal, decimal_string, group, grouped, pad_left, padded_left, truncate, truncated};
use crate::route::Route;
use crate::ui::{Input, Purpose, RouteState, SortMode, Ui};

verus! {

/// How a span of text is drawn.
#[derive(Clone, Copy, PartialEq, Eq, Structural, Debug)]
pub enum Tone {
    Plain,
    Bold,
    Dim,
    Cyan,
    Yellow,
    BoldYellow,
    DarkGray,
    Green,
    BoldGreen,
    Blue,
    Magenta,
    Gray,
    Red,
}

/// A piece of text drawn in one tone.
pub struct Span {
    pub text: String,
    pub tone: Tone,
}

/// A span as text and tone.
pub type SpanV = (Seq<char>, Tone);

/// The text and tone of each span.
pub open spec fn spans_view(spans: Seq<Span>) -> Seq<SpanV> {
    spans.map_values(|s: Span| (s.text@, s.tone))
}

/// The text and tone of each span of each row.
pub open spec fn rows_view(rows: Seq<Vec<Span>>) -> Seq<Seq<SpanV>> {
    rows.map_values(|r: Vec<Span>| spans_view(r@))
}

/// The indentation of the lines under a planet.
pub open spec fn indent() -> Seq<char> {
    "     "@
}

/// A value grouped in thousands and right-aligned in twelve columns.
pub open spec fn value_column(v: u64) -> Seq<char> {
    padded_left(grouped(decimal(v as nat)), 12)
}

/// An estimated value as the header shows it: grouped and right-aligned,
/// or a dash when it cannot be computed.
pub open spec fn estimate_column(e: Option<u64>) -> Seq<char> {
    match e {
        Some(v) => value_column(v),
        None => padded_left("—"@, 12),
    }
}

fn span(text: String, tone: Tone) -> (s: Span)
    ensures
        s.text@ == text@,
        s.tone == tone,
{
    Span { text, tone }
}

fn lit(text: &str, tone: Tone) -> (s: Span)
    ensures
        s.text@ == text@,
        s.tone == tone,
{
    Span { text: String::from_str(text), tone }
}

fn push_span(row: &mut Vec<Span>, s: Span)
    ensures
        spans_view(final(row)@) == spans_view(old(row)@).push((s.text@, s.tone)),
{
    let ghost before = row@;
    row.push(s);
    assert(spans_view(row@) =~= spans_view(before).push((s.text@, s.tone)));
}

fn value_text(prefix: &str, v: u64) -> (s: String)
    ensures
        s@ == prefix@ + value_column(v),
{
    let mut s = String::from_str(prefix);
    let padded = pad_left(group(v), 12);
    s.append(padded.as_str());
    s
}

/// Texts put together from a prefix, a decimal number and a suffix.
fn number_text(prefix: &str, n: u64, suffix: &str) -> (s: String)
    ensures
        s@ == prefix@ + decimal(n as nat) + suffix@,
{
    let mut s = String::from_str(prefix);
    let d = decimal_string(n);
    s.append(d.as_str());
    s.append(suffix);
    s
}

// ---------------------------------------------------------------------------
// The planet's header line.
/// The tone of a planet's header: dim when done, bold yellow when near.
pub open spec fn header_tone(v: PlanetView, near: bool) -> Tone {
    if v.complete {
        Tone::Dim
    } else if near {
        Tone::BoldYellow
    } else {
        Tone::Plain
    }
}

/// Whether the planet can be landed on, as the header says it.
pub open spec fn land_text(landable: Option<bool>) -> Seq<char> {
    match landable {
        Some(true) => "landable"@,
        Some(false) => "no-land"@,
        None => "—"@,
    }
}

/// The most detailed scan, as the header says it.
pub open spec fn scan_text(scan: ScanLevel) -> Seq<char> {
    match scan {
        ScanLevel::Full => "full"@,
        ScanLevel::Saa => "saa"@,
        ScanLevel::Fss => "fss"@,
    }
}

/// The biological signal count of the header.
pub open spec fn bio_span(signals: Option<SignalCounts>) -> SpanV {
    match signals {
        Some(c) => if c.biological > 0 {
            ("  bio:"@ + decimal(c.biological as nat), Tone::BoldGreen)
        } else {
            ("  bio:0"@, Tone::Dim)
        },
        None => ("  bio:—"@, Tone::Dim),
    }
}

/// A planet's header line.
pub open spec fn header_row_spec(v: PlanetView, near: bool) -> Seq<SpanV> {
    let t = header_tone(v, near);
    let base = seq![
        (if near { " @"@ } else { "   "@ }, if near { Tone::BoldYellow } else { Tone::DarkGray }),
        (" "@ + decimal(v.id as nat) + "  "@, t),
        (truncated(v.name@, 20), t),
        (" "@ + land_text(v.landable), t),
        (" ["@ + scan_text(v.scan) + "]"@, t),
        bio_span(v.signals),
        ("  est "@ + estimate_column(v.estimated), t),
    ];
    if v.complete {
        base.push(("  [EXOBIO ✓]"@, Tone::BoldGreen))
    } else {
        base
    }
}

/// A planet's header starts with an `@` when the player is near it and
/// ends with the done marker exactly when the planet is done; a done
/// planet is dimmed, else the near planet is highlighted; the biological
/// signal count is green when there is any.
pub proof fn law_header_marks(v: PlanetView, near: bool)
    ensures
        header_row_spec(v, near)[0] == if near {
            (" @"@, Tone::BoldYellow)
        } else {
            ("   "@, Tone::DarkGray)
        },
        header_row_spec(v, near).len() == if v.complete {
            8nat
        } else {
            7nat
        },
        v.complete ==> header_row_spec(v, near)[7] == ("  [EXOBIO ✓]"@, Tone::BoldGreen),
        v.complete ==> header_row_spec(v, near)[2] == (truncated(v.name@, 20), Tone::Dim),
        !v.complete && near ==> header_row_spec(v, near)[2] == (
            truncated(v.name@, 20),
            Tone::BoldYellow,
        ),
        !v.complete && !near ==> header_row_spec(v, near)[2] == (truncated(v.name@, 20), Tone::Plain),
        (header_row_spec(v, near)[5].1 == Tone::BoldGreen) <==> (v.signals matches Some(c)
            && c.biological > 0),
{
}

/// A planet's header line: whether the player is near it, its id, name,
/// landability, scan level, biological signals and estimated value.
pub fn planet_header_row(view: &PlanetView, near: bool) -> (row: Vec<Span>)
    ensures
        spans_view(row@) == header_row_spec(*view, near),
{
    let tone = if view.complete {
        Tone::Dim
    } else if near {
        Tone::BoldYellow
    } else {
        Tone::Plain
    };
    let land: &str = match view.landable {
        Some(true) => "landable",
        Some(false) => "no-land",
        None => "—",
    };
    let scan: &str = match view.scan {
        ScanLevel::Full => "full",
        ScanLevel::Saa => "saa",
        ScanLevel::Fss => "fss",
    };
    let bio = match view.signals {
        Some(c) => if c.biological > 0 {
            span(number_text("  bio:", c.biological as u64, ""), Tone::BoldGreen)
        } else {
            lit("  bio:0", Tone::Dim)
        },
        None => lit("  bio:—", Tone::Dim),
    };
    proof {
        reveal_strlit("");
    }
    assert(""@ =~= Seq::<char>::empty());
    let mut row: Vec<Span> = Vec::new();
    if near {
        push_span(&mut row, lit(" @", Tone::BoldYellow));
    } else {
        push_span(&mut row, lit("   ", Tone::DarkGray));
    }
    push_span(&mut row, span(number_text(" ", view.id as u64, "  "), tone));
    push_span(&mut row, span(truncate(view.name.as_str(), 20), tone));
    let mut land_s = String::from_str(" ");
    land_s.append(land);
    push_span(&mut row, span(land_s, tone));
    let mut scan_s = String::from_str(" [");
    scan_s.append(scan);
    scan_s.append("]");
    push_span(&mut row, span(scan_s, tone));
    push_span(&mut row, bio);
    let est = match view.estimated {
        Some(v) => value_text("  est ", v),
        None => {
            let mut e = String::from_str("  est ");
            let dash = pad_left(String::from_str("—"), 12);
            e.append(dash.as_str());
            e
        },
    };
    push_span(&mut row, span(est, tone));
    if view.complete {
        push_span(&mut row, lit("  [EXOBIO ✓]", Tone::BoldGreen));
    }
    assert(spans_view(row@) =~= header_row_spec(*view, near));
    row
}

// ---------------------------------------------------------------------------
// The lines under a planet's header.
/// A signal kind: its count, its label and its tone.
pub type SignalKind = (usize, Seq<char>, Tone);

/// The six signal kinds in the order the summary lists them.
pub open spec fn signal_kinds(c: SignalCounts) -> Seq<SignalKind> {
    seq![
        (c.biological, "bio"@, Tone::Green),
        (c.human, "human"@, Tone::Blue),
        (c.geological, "gel"@, Tone::Yellow),
        (c.thargoid, "tharg"@, Tone::Magenta),
        (c.guardian, "guard"@, Tone::Cyan),
        (c.other, "other"@, Tone::Gray),
    ]
}

/// A space and `label count` for each kind with a count above zero.
pub open spec fn signal_spans(kinds: Seq<SignalKind>) -> Seq<SpanV>
    decreases kinds.len(),
{
    if kinds.len() == 0 {
        Seq::empty()
    } else {
        let rest = signal_spans(kinds.drop_last());
        let k = kinds.last();
        if k.0 > 0 {
            rest + seq![(" "@, Tone::Plain), (k.1 + " "@ + decimal(k.0 as nat), k.2)]
        } else {
            rest
        }
    }
}

/// The signal summary line of a planet.
pub open spec fn signals_row_spec(c: SignalCounts) -> Seq<SpanV> {
    let s = signal_spans(signal_kinds(c));
    seq![(indent(), Tone::Plain), ("signals:"@, Tone::Dim)] + s + if s.len() == 0 {
        seq![(" none"@, Tone::Dim)]
    } else {
        Seq::empty()
    }
}

proof fn lemma_signal_step(k: Seq<SignalKind>, j: int)
    requires
        0 <= j < k.len(),
    ensures
        signal_spans(k.take(j + 1)) == signal_spans(k.take(j)) + if k[j].0 > 0 {
            seq![(" "@, Tone::Plain), (k[j].1 + " "@ + decimal(k[j].0 as nat), k[j].2)]
        } else {
            Seq::empty()
        },
{
    assert(k.take(j + 1).drop_last() =~= k.take(j));
    assert(k.take(j + 1).last() == k[j]);
    if k[j].0 <= 0 {
        assert(signal_spans(k.take(j)) + Seq::<SpanV>::empty() =~= signal_spans(k.take(j)));
    }
}

/// The signal summary says `none` exactly when no signal of any kind was
/// counted; otherwise the biological count, when there is one, comes
/// first, in green.
pub proof fn law_signals_summary(c: SignalCounts)
    ensures
        (c.biological == 0 && c.human == 0 && c.geological == 0 && c.thargoid == 0 && c.guardian
            == 0 && c.other == 0) <==> signals_row_spec(c) == seq![
            (indent(), Tone::Plain),
            ("signals:"@, Tone::Dim),
            (" none"@, Tone::Dim),
        ],
        c.biological > 0 ==> signals_row_spec(c)[3] == (
            "bio "@ + decimal(c.biological as nat),
            Tone::Green,
        ),
{
    let k = signal_kinds(c);
    lemma_signal_step(k, 0);
    lemma_signal_step(k, 1);
    lemma_signal_step(k, 2);
    lemma_signal_step(k, 3);
    lemma_signal_step(k, 4);
    lemma_signal_step(k, 5);
    assert(k.take(0) =~= Seq::<SignalKind>::empty());
    assert(k.take(6) =~= k);
    let s0 = signal_spans(k.take(0));
    let s1 = signal_spans(k.take(1));
    let s2 = signal_spans(k.take(2));
    let s3 = signal_spans(k.take(3));
    let s4 = signal_spans(k.take(4));
    let s5 = signal_spans(k.take(5));
    let s6 = signal_spans(k.take(6));
    assert(s0.len() == 0);
    assert(s1 == s0 + if k[0].0 > 0 {
        seq![(" "@, Tone::Plain), (k[0].1 + " "@ + decimal(k[0].0 as nat), k[0].2)]
    } else {
        Seq::empty()
    });
    assert(s2.len() >= s1.len() && s3.len() >= s2.len() && s4.len() >= s3.len() && s5.len()
        >= s4.len() && s6.len() >= s5.len());
    assert(s2.len() == s1.len() <==> k[1].0 == 0);
    assert(s3.len() == s2.len() <==> k[2].0 == 0);
    assert(s4.len() == s3.len() <==> k[3].0 == 0);
    assert(s5.len() == s4.len() <==> k[4].0 == 0);
    assert(s6.len() == s5.len() <==> k[5].0 == 0);
    assert(s1.len() == 0 <==> k[0].0 == 0);
    let row = signals_row_spec(c);
    if c.biological > 0 {
        reveal_strlit("bio");
        reveal_strlit(" ");
        reveal_strlit("bio ");
        assert("bio"@ + " "@ =~= "bio "@);
        assert(s1[1] == ("bio "@ + decimal(c.biological as nat), Tone::Green));
        assert(s2[1] == s1[1] && s3[1] == s1[1] && s4[1] == s1[1] && s5[1] == s1[1] && s6[1] == s1[1]);
        assert(row[3] == s6[1]);
    }
    if s6.len() > 0 {
        assert(row.len() == 2 + s6.len());
    } else {
        assert(row =~= seq![(indent(), Tone::Plain), ("signals:"@, Tone::Dim), (" none"@, Tone::Dim)]);
    }
}

/// One checklist line with the bucket and value it is sorted by.
pub struct ItemV {
    pub bucket: u64,
    pub line: Seq<SpanV>,
    pub value: u64,
}

/// An entry that cannot spawn and was never scanned is left off.
pub open spec fn excluded(e: SpeciesEntry) -> bool {
    e.will_spawn == WillSpawn::No && !e.confirmed
}

/// A checklist line for a predicted species: active unfinished entries in
/// bucket 0, completed ones in 1, inactive ones in 2.
pub open spec fn entry_item(e: SpeciesEntry, threshold: u64) -> ItemV {
    let label = match e.genus_variant {
        Some(v) => v@,
        None => e.name@,
    };
    let progress: u8 = match e.genus_progress {
        Some(p) => p,
        None => 1,
    };
    let bucket: u64 = if e.completed {
        1
    } else if !active(e, threshold) {
        2
    } else {
        0
    };
    let marker: SpanV = if e.completed {
        ("✓✓✓"@, Tone::Green)
    } else if !active(e, threshold) {
        ("·  "@, Tone::Dim)
    } else if e.confirmed {
        ("✓ "@ + decimal(progress as nat) + "/3"@, Tone::Green)
    } else {
        ("?   "@, Tone::Yellow)
    };
    ItemV {
        bucket,
        line: seq![
            (indent(), Tone::Plain),
            marker,
            (label, if bucket == 0 { Tone::Plain } else { Tone::Dim }),
            ("  "@ + value_column(e.base_value), Tone::Dim),
        ],
        value: e.base_value,
    }
}

/// A checklist line for a scanned organic that was not predicted.
pub open spec fn organic_item(o: Organic) -> ItemV {
    let bucket: u64 = if o.completed {
        1
    } else {
        0
    };
    let marker = if o.completed {
        "✓✓✓"@
    } else {
        "✓ "@ + decimal(o.progress as nat) + "/3"@
    };
    ItemV {
        bucket,
        line: seq![
            (indent(), Tone::Plain),
            (marker, Tone::Green),
            (o.name@ + " (not predicted)"@, if bucket == 0 { Tone::Plain } else { Tone::Dim }),
            ("  "@ + value_column(o.base_value), Tone::Dim),
        ],
        value: o.base_value,
    }
}

/// The checklist lines of the entries that are not left off, in order.
pub open spec fn entry_items(es: Seq<SpeciesEntry>, threshold: u64) -> Seq<ItemV>
    decreases es.len(),
{
    if es.len() == 0 {
        Seq::empty()
    } else if excluded(es.last()) {
        entry_items(es.drop_last(), threshold)
    } else {
        entry_items(es.drop_last(), threshold).push(entry_item(es.last(), threshold))
    }
}

/// How many entries are left off.
pub open spec fn excluded_count(es: Seq<SpeciesEntry>) -> nat
    decreases es.len(),
{
    if es.len() == 0 {
        0
    } else if excluded(es.last()) {
        excluded_count(es.drop_last()) + 1
    } else {
        excluded_count(es.drop_last())
    }
}

/// All checklist lines of a planet before sorting: the kept entries, then
/// the unpredicted organics.
pub open spec fn checklist_items(v: PlanetView, threshold: u64) -> Seq<ItemV> {
    entry_items(v.entries@, threshold) + v.unpredicted@.map_values(|o: Organic| organic_item(o))
}

/// Checklist lines sort by bucket, then by value, highest first.
pub open spec fn item_key(it: ItemV) -> SortKey {
    (it.bucket, (u64::MAX - it.value) as u64, 0)
}

/// The sort keys of the checklist lines.
pub open spec fn item_keys(items: Seq<ItemV>) -> Seq<SortKey> {
    items.map_values(|it: ItemV| item_key(it))
}

/// The checklist lines in their stable sorted order.
pub open spec fn sorted_lines(items: Seq<ItemV>) -> Seq<Seq<SpanV>> {
    let order = sorted_positions(item_keys(items));
    Seq::new(order.len(), |k: int| items[order[k] as int].line)
}

/// In a planet's checklist the lines of active unfinished species come
/// first, then completed ones, then inactive ones; within a bucket higher
/// values come first, and equal values keep their order.
pub proof fn law_checklist_order(items: Seq<ItemV>, order: Seq<usize>, i: int, j: int)
    requires
        stably_sorted(item_keys(items), order),
        0 <= i < j < order.len(),
    ensures
        items[order[i] as int].bucket <= items[order[j] as int].bucket,
        items[order[i] as int].bucket == items[order[j] as int].bucket ==> items[order[i] as int].value
            >= items[order[j] as int].value,
        items[order[i] as int].bucket == items[order[j] as int].bucket && items[order[i] as int].value
            == items[order[j] as int].value ==> order[i] < order[j],
{
    let keys = item_keys(items);
    assert(order[i] < items.len() && order[j] < items.len());
    assert(key_le(keys[order[i] as int], keys[order[j] as int]));
}

/// A scanned organic that was not predicted and is completed is shown
/// with three ticks and a dimmed name, and its line comes after the line
/// of every species that can still spawn (or was confirmed), is worth the
/// threshold and is not completed.
pub proof fn law_completed_organic_after_open_species(
    items: Seq<ItemV>,
    order: Seq<usize>,
    i: int,
    j: int,
    e: SpeciesEntry,
    o: Organic,
    threshold: u64,
)
    requires
        stably_sorted(item_keys(items), order),
        0 <= i < order.len(),
        0 <= j < order.len(),
        items[order[i] as int] == entry_item(e, threshold),
        items[order[j] as int] == organic_item(o),
        e.will_spawn == WillSpawn::Yes || e.will_spawn == WillSpawn::Maybe || e.confirmed,
        e.base_value >= threshold,
        !e.completed,
        o.completed,
    ensures
        i < j,
        organic_item(o).line[1] == ("✓✓✓"@, Tone::Green),
        organic_item(o).line[2] == (o.name@ + " (not predicted)"@, Tone::Dim),
{
    if j <= i {
        if j < i {
            law_checklist_order(items, order, j, i);
        }
    }
}

/// A scanned organic that was not predicted and is not completed is shown
/// with its scan count and a plain name, and its line comes before the
/// line of every completed species.
pub proof fn law_open_organic_before_completed_species(
    items: Seq<ItemV>,
    order: Seq<usize>,
    i: int,
    j: int,
    o: Organic,
    e: SpeciesEntry,
    threshold: u64,
)
    requires
        stably_sorted(item_keys(items), order),
        0 <= i < order.len(),
        0 <= j < order.len(),
        items[order[i] as int] == organic_item(o),
        items[order[j] as int] == entry_item(e, threshold),
        !o.completed,
        e.completed,
    ensures
        i < j,
        organic_item(o).line[1] == ("✓ "@ + decimal(o.progress as nat) + "/3"@, Tone::Green),
        organic_item(o).line[2] == (o.name@ + " (not predicted)"@, Tone::Plain),
{
    if j <= i {
        if j < i {
            law_checklist_order(items, order, j, i);
        }
    }
}

/// In a planet's checklist the line of a species that can still spawn (or
/// was confirmed), is worth the threshold and is not completed comes
/// before the line of a completed species, which comes before the line of
/// a species that cannot spawn or is worth less than the threshold.
pub proof fn law_species_lines_order(
    items: Seq<ItemV>,
    order: Seq<usize>,
    i: int,
    j: int,
    e: SpeciesEntry,
    f: SpeciesEntry,
    threshold: u64,
)
    requires
        stably_sorted(item_keys(items), order),
        0 <= i < order.len(),
        0 <= j < order.len(),
        items[order[i] as int] == entry_item(e, threshold),
        items[order[j] as int] == entry_item(f, threshold),
        !e.completed,
        e.will_spawn == WillSpawn::Yes || e.will_spawn == WillSpawn::Maybe || e.confirmed,
        e.base_value >= threshold,
        f.completed,
    ensures
        i < j,
{
    if j < i {
        law_checklist_order(items, order, j, i);
    }
}

/// The line of a completed species comes before the line of one that is
/// not completed and either cannot spawn (though confirmed) or is worth
/// less than the threshold.
pub proof fn law_done_before_inactive_lines(
    items: Seq<ItemV>,
    order: Seq<usize>,
    i: int,
    j: int,
    e: SpeciesEntry,
    f: SpeciesEntry,
    threshold: u64,
)
    requires
        stably_sorted(item_keys(items), order),
        0 <= i < order.len(),
        0 <= j < order.len(),
        items[order[i] as int] == entry_item(e, threshold),
        items[order[j] as int] == entry_item(f, threshold),
        e.completed,
        !f.completed,
        (f.will_spawn == WillSpawn::No && !f.confirmed) || f.base_value < threshold,
    ensures
        i < j,
{
    if j < i {
        law_checklist_order(items, order, j, i);
    }
}

/// How a species line is marked: three ticks once completed; a dot for one
/// that cannot spawn or is worth less than the threshold; the scan count
/// (of the planet's organic of its genus, else 1) once confirmed; else a
/// question mark. It is labelled with the variant found, if any, else the
/// species, and dimmed unless it is still to be done.
pub proof fn law_species_line_marks(e: SpeciesEntry, threshold: u64)
    ensures
        e.completed ==> entry_item(e, threshold).line[1] == ("✓✓✓"@, Tone::Green),
        !e.completed && ((e.will_spawn == WillSpawn::No && !e.confirmed) || e.base_value < threshold)
            ==> entry_item(e, threshold).line[1] == ("·  "@, Tone::Dim),
        !e.completed && e.confirmed && e.base_value >= threshold ==> entry_item(e, threshold).line[1]
            == ("✓ "@ + decimal(
            match e.genus_progress {
                Some(p) => p as nat,
                None => 1,
            },
        ) + "/3"@, Tone::Green),
        !e.completed && !e.confirmed && e.will_spawn != WillSpawn::No && e.base_value >= threshold
            ==> entry_item(e, threshold).line[1] == ("?   "@, Tone::Yellow),
        entry_item(e, threshold).line[2].0 == match e.genus_variant {
            Some(v) => v@,
            None => e.name@,
        },
        entry_item(e, threshold).line[2].1 == if !e.completed && (e.will_spawn != WillSpawn::No
            || e.confirmed) && e.base_value >= threshold {
            Tone::Plain
        } else {
            Tone::Dim
        },
        entry_item(e, threshold).value == e.base_value,
{
}

/// Every species except those that cannot spawn and were never confirmed
/// has a line in the checklist.
pub proof fn law_kept_species_listed(es: Seq<SpeciesEntry>, threshold: u64, i: int)
    requires
        0 <= i < es.len(),
        es[i].will_spawn != WillSpawn::No || es[i].confirmed,
    ensures
        entry_items(es, threshold).contains(entry_item(es[i], threshold)),
    decreases es.len(),
{
    if i < es.len() - 1 {
        law_kept_species_listed(es.drop_last(), threshold, i);
        let k = choose|k: int|
            0 <= k < entry_items(es.drop_last(), threshold).len() && entry_items(
                es.drop_last(),
                threshold,
            )[k] == entry_item(es[i], threshold);
        if !excluded(es.last()) {
            assert(entry_items(es, threshold)[k] == entry_item(es[i], threshold));
        }
    } else {
        let n = entry_items(es.drop_last(), threshold).len();
        assert(entry_items(es, threshold)[n as int] == entry_item(es[i], threshold));
    }
}

/// The count of species left off the checklist is the number of species
/// that cannot spawn and were never confirmed, and the checklist has a
/// line for each of the others.
pub proof fn law_excluded_count(es: Seq<SpeciesEntry>, threshold: u64)
    ensures
        excluded_count(es) == es.filter(
            |e: SpeciesEntry| e.will_spawn == WillSpawn::No && !e.confirmed,
        ).len(),
        entry_items(es, threshold).len() + excluded_count(es) == es.len(),
    decreases es.len(),
{
    if es.len() > 0 {
        law_excluded_count(es.drop_last(), threshold);
        assert(es == es.drop_last().push(es.last()));
        es.drop_last().lemma_filter_len_push(
            |e: SpeciesEntry| e.will_spawn == WillSpawn::No && !e.confirmed,
            es.last(),
        );
    }
}

/// The hint shown for a planet without predictions.
pub open spec fn empty_hint(v: PlanetView) -> Seq<char> {
    if v.scan != ScanLevel::Full {
        "  scan this body to predict flora"@
    } else if v.landable == Some(false) {
        "  not landable"@
    } else {
        "  no biological signals"@
    }
}

/// What follows the checklist: a hint when nothing is predicted, else a
/// count of the species left off, if any.
pub open spec fn trailing_rows(v: PlanetView) -> Seq<Seq<SpanV>> {
    if v.entries@.len() == 0 {
        seq![seq![(empty_hint(v), Tone::Dim)]]
    } else if excluded_count(v.entries@) > 0 {
        seq![
            seq![
                (indent() + "— "@ + decimal(excluded_count(v.entries@)) + " species excluded (impossible)"@,
                Tone::Dim),
            ],
        ]
    } else {
        Seq::empty()
    }
}

/// The lines under a planet's header.
pub open spec fn inset_rows_spec(v: PlanetView, threshold: u64) -> Seq<Seq<SpanV>> {
    let signals = match v.signals {
        Some(c) => seq![signals_row_spec(c)],
        None => Seq::empty(),
    };
    signals + sorted_lines(checklist_items(v, threshold)) + trailing_rows(v)
}

/// An exec checklist line.
pub struct Item {
    pub bucket: u64,
    pub line: Vec<Span>,
    pub value: u64,
}

/// The abstract checklist line.
pub open spec fn item_view(it: Item) -> ItemV {
    ItemV { bucket: it.bucket, line: spans_view(it.line@), value: it.value }
}

fn signals_row(c: &SignalCounts) -> (row: Vec<Span>)
    ensures
        spans_view(row@) == signals_row_spec(*c),
{
    let counts: [usize; 6] = [c.biological, c.human, c.geological, c.thargoid, c.guardian, c.other];
    let labels: [&str; 6] = ["bio", "human", "gel", "tharg", "guard", "other"];
    let tones: [Tone; 6] = [Tone::Green, Tone::Blue, Tone::Yellow, Tone::Magenta, Tone::Cyan, Tone::Gray];
    let ghost kinds = signal_kinds(*c);
    assert(counts@ == seq![c.biological, c.human, c.geological, c.thargoid, c.guardian, c.other]);
    assert(tones@ == seq![Tone::Green, Tone::Blue, Tone::Yellow, Tone::Magenta, Tone::Cyan, Tone::Gray]);
    assert(labels@ == seq!["bio", "human", "gel", "tharg", "guard", "other"]);
    let mut row: Vec<Span> = Vec::new();
    push_span(&mut row, lit("     ", Tone::Plain));
    push_span(&mut row, lit("signals:", Tone::Dim));
    let ghost head = spans_view(row@);
    let mut any = false;
    let mut i: usize = 0;
    while i < 6
        invariant
            i <= 6,
            kinds == signal_kinds(*c),
            counts@ == seq![c.biological, c.human, c.geological, c.thargoid, c.guardian, c.other],
            tones@ == seq![Tone::Green, Tone::Blue, Tone::Yellow, Tone::Magenta, Tone::Cyan, Tone::Gray],
            labels@ == seq!["bio", "human", "gel", "tharg", "guard", "other"],
            forall|j: int| 0 <= j < 6 ==> (#[trigger] kinds[j]).0 == counts@[j] && kinds[j].1 == labels@[j]@ && kinds[j].2 == tones@[j],
            spans_view(row@) == head + signal_spans(kinds.take(i as int)),
            any == (signal_spans(kinds.take(i as int)).len() > 0),
        decreases 6 - i,
    {
        assert(kinds.take(i + 1).drop_last() == kinds.take(i as int));
        assert(kinds.take(i + 1).last() == kinds[i as int]);
        if counts[i] > 0 {
            any = true;
            push_span(&mut row, lit(" ", Tone::Plain));
            let mut t = String::from_str(labels[i]);
            t.append(" ");
            let d = decimal_string(counts[i] as u64);
            t.append(d.as_str());
            push_span(&mut row, span(t, tones[i]));
            assert(spans_view(row@) =~= head + signal_spans(kinds.take(i + 1)));
        } else {
            assert(signal_spans(kinds.take(i + 1)) == signal_spans(kinds.take(i as int)));
        }
        i = i + 1;
    }
    assert(kinds.take(6) == kinds);
    if !any {
        push_span(&mut row, lit(" none", Tone::Dim));
    }
    assert(spans_view(row@) =~= signals_row_spec(*c));
    row
}

fn entry_item_of(e: &SpeciesEntry, threshold: u64) -> (it: Item)
    ensures
        item_view(it) == entry_item(*e, threshold),
{
    let active = is_active(e, threshold);
    let label = match &e.genus_variant {
        Some(v) => v.clone(),
        None => e.name.clone(),
    };
    let progress: u8 = match e.genus_progress {
        Some(p) => p,
        None => 1,
    };
    let bucket: u64 = if e.completed {
        1
    } else if !active {
        2
    } else {
        0
    };
    let marker = if e.completed {
        lit("✓✓✓", Tone::Green)
    } else if !active {
        lit("·  ", Tone::Dim)
    } else if e.confirmed {
        span(number_text("✓ ", progress as u64, "/3"), Tone::Green)
    } else {
        lit("?   ", Tone::Yellow)
    };
    let text_tone = if bucket == 0 {
        Tone::Plain
    } else {
        Tone::Dim
    };
    let mut line: Vec<Span> = Vec::new();
    push_span(&mut line, lit("     ", Tone::Plain));
    push_span(&mut line, marker);
    push_span(&mut line, span(label, text_tone));
    push_span(&mut line, span(value_text("  ", e.base_value), Tone::Dim));
    let it = Item { bucket, line, value: e.base_value };
    assert(item_view(it).line =~= entry_item(*e, threshold).line);
    it
}

fn organic_item_of(o: &Organic) -> (it: Item)
    ensures
        item_view(it) == organic_item(*o),
{
    let bucket: u64 = if o.completed {
        1
    } else {
        0
    };
    let marker = if o.completed {
        String::from_str("✓✓✓")
    } else {
        number_text("✓ ", o.progress as u64, "/3")
    };
    let mut name = o.name.clone();
    name.append(" (not predicted)");
    let mut line: Vec<Span> = Vec::new();
    push_span(&mut line, lit("     ", Tone::Plain));
    push_span(&mut line, span(marker, Tone::Green));
    push_span(
        &mut line,
        span(
            name,
            if bucket == 0 {
                Tone::Plain
            } else {
                Tone::Dim
            },
        ),
    );
    push_span(&mut line, span(value_text("  ", o.base_value), Tone::Dim));
    let it = Item { bucket, line, value: o.base_value };
    assert(item_view(it).line =~= organic_item(*o).line);
    it
}

/// The checklist lines of a planet before sorting, and how many entries
/// were left off.
fn checklist(view: &PlanetView, threshold: u64) -> (r: (Vec<Item>, usize))
    ensures
        r.0@.map_values(|it: Item| item_view(it)) == checklist_items(*view, threshold),
        r.1 == excluded_count(view.entries@),
{
    let mut items: Vec<Item> = Vec::new();
    let mut excluded: usize = 0;
    let mut i: usize = 0;
    let n = view.entries.len();
    while i < n
        invariant
            n == view.entries@.len(),
            i <= n,
            items@.map_values(|it: Item| item_view(it)) == entry_items(view.entries@.take(i as int), threshold),
            excluded == excluded_count(view.entries@.take(i as int)),
            excluded <= i,
        decreases n - i,
    {
        let e = &view.entries[i];
        let ghost es = view.entries@.take(i + 1);
        assert(es.drop_last() == view.entries@.take(i as int));
        assert(es.last() == *e);
        if e.will_spawn == WillSpawn::No && !e.confirmed {
            excluded = excluded + 1;
        } else {
            let it = entry_item_of(e, threshold);
            let ghost before = items@;
            items.push(it);
            assert(items@.map_values(|it: Item| item_view(it)) =~= before.map_values(
                |it: Item| item_view(it),
            ).push(item_view(it)));
        }
        i = i + 1;
    }
    assert(view.entries@.take(n as int) == view.entries@);
    let ghost kept = items@.map_values(|it: Item| item_view(it));
    let m = view.unpredicted.len();
    let mut j: usize = 0;
    while j < m
        invariant
            m == view.unpredicted@.len(),
            j <= m,
            kept == entry_items(view.entries@, threshold),
            items@.map_values(|it: Item| item_view(it)) == kept + view.unpredicted@.take(
                j as int,
            ).map_values(|o: Organic| organic_item(o)),
        decreases m - j,
    {
        let it = organic_item_of(&view.unpredicted[j]);
        let ghost before = items@;
        items.push(it);
        assert(view.unpredicted@.take(j + 1).map_values(|o: Organic| organic_item(o))
            =~= view.unpredicted@.take(j as int).map_values(|o: Organic| organic_item(o)).push(
            organic_item(view.unpredicted@[j as int]),
        ));
        assert(items@.map_values(|it: Item| item_view(it)) =~= before.map_values(
            |it: Item| item_view(it),
        ).push(item_view(it)));
        j = j + 1;
    }
    assert(view.unpredicted@.take(m as int) == view.unpredicted@);
    (items, excluded)
}

/// The lines under a planet's header: the signal summary, the species
/// checklist (active unfinished first, then completed, then inactive; by
/// value within each), and a closing hint or count of excluded species.
pub fn planet_inset_rows(view: &PlanetView, threshold: u64) -> (rows: Vec<Vec<Span>>)
    ensures
        rows_view(rows@) == inset_rows_spec(*view, threshold),
{
    let mut rows: Vec<Vec<Span>> = Vec::new();
    let ghost signals: Seq<Seq<SpanV>> = match view.signals {
        Some(c) => seq![signals_row_spec(c)],
        None => Seq::empty(),
    };
    if let Some(c) = &view.signals {
        let r = signals_row(c);
        rows.push(r);
    }
    assert(rows_view(rows@) =~= signals);
    let (items, excluded) = checklist(view, threshold);
    let ghost iv = items@.map_values(|it: Item| item_view(it));
    let mut keys: Vec<SortKey> = Vec::new();
    let mut i: usize = 0;
    while i < items.len()
        invariant
            i <= items@.len(),
            iv == items@.map_values(|it: Item| item_view(it)),
            keys@ == item_keys(iv).take(i as int),
        decreases items@.len() - i,
    {
        let k: SortKey = (items[i].bucket, u64::MAX - items[i].value, 0);
        keys.push(k);
        assert(item_keys(iv).take(i + 1) =~= item_keys(iv).take(i as int).push(k));
        i = i + 1;
    }
    assert(item_keys(iv).take(items@.len() as int) == item_keys(iv));
    let order = stable_order(&keys);
    let ghost sorted = sorted_lines(iv);
    let mut k: usize = 0;
    while k < order.len()
        invariant
            k <= order@.len(),
            order@ == sorted_positions(item_keys(iv)),
            stably_sorted(item_keys(iv), order@),
            iv == items@.map_values(|it: Item| item_view(it)),
            sorted == sorted_lines(iv),
            rows_view(rows@) == signals + sorted.take(k as int),
        decreases order@.len() - k,
    {
        let idx = order[k];
        assert(idx < items@.len());
        let line = clone_row(&items[idx].line);
        let ghost before = rows@;
        rows.push(line);
        assert(rows_view(rows@) =~= rows_view(before).push(spans_view(line@)));
        assert(sorted.take(k + 1) =~= sorted.take(k as int).push(iv[idx as int].line));
        k = k + 1;
    }
    assert(sorted.take(order@.len() as int) =~= sorted);
    assert(iv == checklist_items(*view, threshold));
    assert(rows_view(rows@) == signals + sorted_lines(checklist_items(*view, threshold)));
    let ghost mid = rows_view(rows@);
    if view.entries.len() == 0 {
        let hint: &str = match view.scan {
            ScanLevel::Full => match view.landable {
                Some(false) => "  not landable",
                _ => "  no biological signals",
            },
            _ => "  scan this body to predict flora",
        };
        let ghost before = rows@;
        let mut r: Vec<Span> = Vec::new();
        push_span(&mut r, lit(hint, Tone::Dim));
        rows.push(r);
        assert(rows_view(rows@) =~= rows_view(before).push(spans_view(r@)));
        assert(spans_view(r@) =~= seq![(empty_hint(*view), Tone::Dim)]);
        assert(rows_view(rows@) =~= mid + trailing_rows(*view));
    } else if excluded > 0 {
        let mut t = String::from_str("     ");
        t.append("— ");
        let d = decimal_string(excluded as u64);
        t.append(d.as_str());
        t.append(" species excluded (impossible)");
        let ghost before = rows@;
        let mut r: Vec<Span> = Vec::new();
        let ghost tv = t@;
        assert(tv == indent() + "— "@ + decimal(excluded_count(view.entries@))
            + " species excluded (impossible)"@);
        push_span(&mut r, span(t, Tone::Dim));
        rows.push(r);
        assert(rows_view(rows@) =~= rows_view(before).push(spans_view(r@)));
        assert(spans_view(r@) =~= seq![(tv, Tone::Dim)]);
        assert(rows_view(rows@) =~= mid + trailing_rows(*view));
    } else {
        assert(rows_view(rows@) =~= mid + trailing_rows(*view));
    }
    assert(rows_view(rows@) =~= inset_rows_spec(*view, threshold));
    rows
}

/// A copy of a row.
pub fn clone_row(row: &Vec<Span>) -> (r: Vec<Span>)
    ensures
        spans_view(r@) == spans_view(row@),
{
    let mut r: Vec<Span> = Vec::new();
    let mut i: usize = 0;
    while i < row.len()
        invariant
            i <= row@.len(),
            spans_view(r@) == spans_view(row@).take(i as int),
        decreases row@.len() - i,
    {
        let s = Span { text: row[i].text.clone(), tone: row[i].tone };
        push_span(&mut r, s);
        assert(spans_view(row@).take(i + 1) =~= spans_view(row@).take(i as int).push(
            (row@[i as int].text@, row@[i as int].tone),
        ));
        i = i + 1;
    }
    assert(spans_view(row@).take(row@.len() as int) =~= spans_view(row@));
    r
}

// ---------------------------------------------------------------------------
// The planet list.
/// A planet's header line followed by the lines under it.
pub open spec fn planet_block(v: PlanetView, near: Option<u8>, threshold: u64) -> Seq<Seq<SpanV>> {
    seq![header_row_spec(v, near == Some(v.id))] + inset_rows_spec(v, threshold)
}

/// The lines of the planets at the positions `order`, in that order.
pub open spec fn list_rows_spec(
    views: Seq<PlanetView>,
    order: Seq<usize>,
    near: Option<u8>,
    threshold: u64,
) -> Seq<Seq<SpanV>>
    decreases order.len(),
{
    if order.len() == 0 {
        Seq::empty()
    } else {
        list_rows_spec(views, order.drop_last(), near, threshold) + planet_block(
            views[order.last() as int],
            near,
            threshold,
        )
    }
}

/// The line of the header of the first listed planet with id `body`.
pub open spec fn near_row(
    views: Seq<PlanetView>,
    order: Seq<usize>,
    near: Option<u8>,
    threshold: u64,
    body: u8,
) -> Option<nat>
    decreases order.len(),
{
    if order.len() == 0 {
        None
    } else {
        match near_row(views, order.drop_last(), near, threshold, body) {
            Some(r) => Some(r),
            None => if views[order.last() as int].id == body {
                Some(list_rows_spec(views, order.drop_last(), near, threshold).len())
            } else {
                None
            },
        }
    }
}

/// `a - b`, or zero.
pub open spec fn sat_sub(a: nat, b: nat) -> nat {
    if a >= b {
        (a - b) as nat
    } else {
        0
    }
}

/// The first line shown: moved just enough to keep the near planet's
/// header visible, then kept from scrolling past the end.
pub open spec fn scroll_after(len: nat, near: Option<nat>, scroll: nat, visible: nat) -> nat {
    let s = match near {
        Some(r) => if r < scroll {
            r
        } else if r + 1 > scroll + visible {
            sat_sub(r, sat_sub(visible, 1))
        } else {
            scroll
        },
        None => scroll,
    };
    if s <= sat_sub(len, visible) {
        s
    } else {
        sat_sub(len, visible)
    }
}

/// After a frame the near planet's header is on screen (when any line
/// is), and the list is never scrolled past its end.
pub proof fn law_near_planet_shown(len: nat, r: nat, scroll: nat, visible: nat)
    requires
        r < len,
        visible > 0,
    ensures
        scroll_after(len, Some(r), scroll, visible) <= r < scroll_after(len, Some(r), scroll, visible)
            + visible,
        scroll_after(len, Some(r), scroll, visible) <= sat_sub(len, visible),
{
}

/// With no near planet the scroll position only moves to stay within the
/// list.
pub proof fn law_scroll_kept_without_near(len: nat, scroll: nat, visible: nat)
    ensures
        scroll_after(len, None, scroll, visible) == if scroll <= sat_sub(len, visible) {
            scroll
        } else {
            sat_sub(len, visible)
        },
{
}

/// While the near planet's header is on screen and the list is not
/// scrolled past its end, a frame leaves the scroll position as it was.
pub proof fn law_scroll_kept_while_near_shown(len: nat, r: nat, scroll: nat, visible: nat)
    requires
        scroll <= r < scroll + visible,
        scroll + visible <= len || scroll == 0,
    ensures
        scroll_after(len, Some(r), scroll, visible) == scroll,
{
}

/// Of all scroll positions that show the near planet's header and do not
/// scroll past the end of the list, a frame picks one closest to where the
/// list was.
pub proof fn law_scroll_moves_least(len: nat, r: nat, scroll: nat, visible: nat, other: nat)
    requires
        r < len,
        other <= r < other + visible,
        other + visible <= len || other == 0,
    ensures
        gap(scroll_after(len, Some(r), scroll, visible), scroll) <= gap(other, scroll),
{
}

/// How far apart two positions are.
pub open spec fn gap(a: nat, b: nat) -> nat {
    if a >= b {
        (a - b) as nat
    } else {
        (b - a) as nat
    }
}

proof fn lemma_block_len(v: PlanetView, near: Option<u8>, threshold: u64)
    ensures
        planet_block(v, near, threshold).len() >= 1,
        planet_block(v, near, threshold)[0] == header_row_spec(v, near == Some(v.id)),
{
}

/// The near planet's line found for the scroll position lies within the
/// list and is the header line of a planet with the near body's id.
pub proof fn law_near_row_is_its_header(
    views: Seq<PlanetView>,
    order: Seq<usize>,
    near: Option<u8>,
    threshold: u64,
    body: u8,
)
    requires
        forall|i: int| 0 <= i < order.len() ==> #[trigger] order[i] < views.len(),
    ensures
        near_row(views, order, near, threshold, body) matches Some(r) ==> {
            &&& r < list_rows_spec(views, order, near, threshold).len()
            &&& exists|i: int|
                0 <= i < order.len() && (#[trigger] views[order[i] as int]).id == body
                    && list_rows_spec(views, order, near, threshold)[r as int] == header_row_spec(
                    views[order[i] as int],
                    near == Some(body),
                )
        },
    decreases order.len(),
{
    if order.len() > 0 {
        let pre = order.drop_last();
        assert forall|i: int| 0 <= i < pre.len() implies #[trigger] pre[i] < views.len() by {
            assert(pre[i] == order[i]);
        }
        law_near_row_is_its_header(views, pre, near, threshold, body);
        let rows_pre = list_rows_spec(views, pre, near, threshold);
        let last = views[order.last() as int];
        let block = planet_block(last, near, threshold);
        lemma_block_len(last, near, threshold);
        let rows = list_rows_spec(views, order, near, threshold);
        assert(rows == rows_pre + block);
        match near_row(views, pre, near, threshold, body) {
            Some(r) => {
                let i = choose|i: int|
                    0 <= i < pre.len() && (#[trigger] views[pre[i] as int]).id == body
                        && rows_pre[r as int] == header_row_spec(views[pre[i] as int], near == Some(body));
                assert(pre[i] == order[i]);
                assert(rows[r as int] == rows_pre[r as int]);
            },
            None => {
                if last.id == body {
                    let r = rows_pre.len();
                    assert(rows[r as int] == block[0]);
                    assert(views[order[order.len() - 1] as int].id == body);
                }
            },
        }
    }
}

/// The body of the view: a message, or the planet lines and the first of
/// them that is shown.
pub enum ListBody {
    Message(Vec<Span>),
    Rows { rows: Vec<Vec<Span>>, offset: usize },
}

/// The planet order for the view's settings.
pub open spec fn list_order(views: Seq<PlanetView>, sort: SortMode) -> Seq<usize> {
    sorted_positions(planet_keys(views, sort))
}

/// The body of the view for a system, its planets, the view's settings
/// and scroll position, and the scroll position it leaves: a message while
/// there is no system or no planet (the position kept), else the planets
/// in list order, each header followed by its lines, scrolled to keep the
/// near planet visible.
pub open spec fn list_body_spec(
    system: Option<SystemSummary>,
    views: Seq<PlanetView>,
    sort: SortMode,
    threshold: u64,
    scroll: nat,
    visible: nat,
    body: ListBody,
    scroll_after_frame: nat,
) -> bool {
    match system {
        None => scroll_after_frame == scroll && (body matches ListBody::Message(m) && spans_view(
            m@,
        ) == seq![(" Waiting for journal events…"@, Tone::Dim)]),
        Some(s) => if views.len() == 0 {
            scroll_after_frame == scroll && (body matches ListBody::Message(m) && spans_view(m@)
                == seq![(" No bodies discovered yet — run an FSS scan."@, Tone::Dim)])
        } else {
            let order = list_order(views, sort);
            let rows = list_rows_spec(views, order, s.near, threshold);
            let near = match s.near {
                Some(b) => near_row(views, order, s.near, threshold, b),
                None => None,
            };
            &&& scroll_after_frame == scroll_after(rows.len(), near, scroll, visible)
            &&& (body matches ListBody::Rows { rows: r, offset } && rows_view(r@) == rows && offset
                == scroll_after_frame)
        },
    }
}

/// The line of the near planet's header in the planet list, if the list
/// shows one.
pub open spec fn listed_near_row(
    system: Option<SystemSummary>,
    views: Seq<PlanetView>,
    sort: SortMode,
    threshold: u64,
) -> Option<nat> {
    match system {
        Some(s) => if views.len() == 0 {
            None
        } else {
            match s.near {
                Some(b) => near_row(views, list_order(views, sort), s.near, threshold, b),
                None => None,
            }
        },
        None => None,
    }
}

/// The planet list of the current system: the planets in list order, each
/// header followed by its lines, scrolled to keep the near planet visible.
pub fn planet_list(
    system: Option<&SystemSummary>,
    views: &Vec<PlanetView>,
    ui: &mut Ui,
    visible: usize,
) -> (body: ListBody)
    requires
        match listed_near_row(
            match system {
                Some(s) => Some(*s),
                None => None,
            },
            views@,
            old(ui).sort,
            old(ui).threshold,
        ) {
            Some(r) => r >= old(ui).scroll ==> old(ui).scroll + visible <= usize::MAX,
            None => true,
        },
    ensures
        final(ui).journal_dir == old(ui).journal_dir,
        final(ui).sort == old(ui).sort,
        final(ui).threshold == old(ui).threshold,
        final(ui).input == old(ui).input,
        final(ui).last_system == old(ui).last_system,
        final(ui).route == old(ui).route,
        list_body_spec(
            match system {
                Some(s) => Some(*s),
                None => None,
            },
            views@,
            old(ui).sort,
            old(ui).threshold,
            old(ui).scroll as nat,
            visible as nat,
            body,
            final(ui).scroll as nat,
        ),
{
    let s = match system {
        None => {
            let mut m: Vec<Span> = Vec::new();
            push_span(&mut m, lit(" Waiting for journal events…", Tone::Dim));
            assert(spans_view(m@) =~= seq![(" Waiting for journal events…"@, Tone::Dim)]);
            return ListBody::Message(m);
        },
        Some(s) => s,
    };
    if views.len() == 0 {
        let mut m: Vec<Span> = Vec::new();
        push_span(&mut m, lit(" No bodies discovered yet — run an FSS scan.", Tone::Dim));
        assert(spans_view(m@) =~= seq![(" No bodies discovered yet — run an FSS scan."@, Tone::Dim)]);
        return ListBody::Message(m);
    }
    let order = planet_order(views, ui.sort);
    let near = s.near;
    let threshold = ui.threshold;
    let mut rows: Vec<Vec<Span>> = Vec::new();
    let mut found: Option<usize> = None;
    let mut k: usize = 0;
    while k < order.len()
        invariant
            k <= order@.len(),
            order@ == list_order(views@, ui.sort),
            stably_sorted(planet_keys(views@, ui.sort), order@),
            rows_view(rows@) == list_rows_spec(views@, order@.take(k as int), near, threshold),
            rows@.len() == rows_view(rows@).len(),
            near is None ==> found is None,
            near matches Some(b) ==> match near_row(views@, order@.take(k as int), near, threshold, b) {
                Some(r) => found == Some(r as usize) && r < rows@.len(),
                None => found is None,
            },
        decreases order@.len() - k,
    {
        let idx = order[k];
        let view = &views[idx];
        let ghost pre = order@.take(k as int);
        assert(order@.take(k + 1).drop_last() == pre);
        assert(order@.take(k + 1).last() == idx);
        proof {
            if let Some(b) = near {
                if near_row(views@, pre, near, threshold, b) is None && view.id == b {
                    assert(rows@.len() == list_rows_spec(views@, pre, near, threshold).len());
                }
            }
        }
        if found.is_none() {
            match near {
                Some(b) => {
                    if view.id == b {
                        found = Some(rows.len());
                    }
                },
                None => {},
            }
        }
        let is_near = match near {
            Some(b) => view.id == b,
            None => false,
        };
        let header = planet_header_row(view, is_near);
        let ghost before = rows@;
        rows.push(header);
        let inset = planet_inset_rows(view, threshold);
        let ghost mid = rows@;
        let mut j: usize = 0;
        while j < inset.len()
            invariant
                j <= inset@.len(),
                mid.len() <= rows@.len(),
                rows@ == mid + rows@.skip(mid.len() as int),
                rows_view(rows@) == rows_view(mid) + rows_view(inset@).take(j as int),
            decreases inset@.len() - j,
        {
            let r = clone_row(&inset[j]);
            let ghost b2 = rows@;
            rows.push(r);
            assert(rows_view(rows@) =~= rows_view(b2).push(spans_view(r@)));
            assert(rows_view(inset@).take(j + 1) =~= rows_view(inset@).take(j as int).push(
                spans_view(inset@[j as int]@),
            ));
            j = j + 1;
        }
        assert(rows_view(inset@).take(inset@.len() as int) =~= rows_view(inset@));
        assert(rows_view(mid) =~= rows_view(before).push(spans_view(header@)));
        assert(rows_view(rows@) =~= list_rows_spec(views@, order@.take(k + 1), near, threshold));
        k = k + 1;
    }
    assert(order@.take(order@.len() as int) == order@);
    let n = rows.len();
    let ghost nr: Option<nat> = match near {
        Some(b) => near_row(views@, order@, near, threshold, b),
        None => None,
    };
    assert(match found {
        Some(r) => nr == Some(r as nat),
        None => nr is None,
    });
    assert(n == list_rows_spec(views@, order@, near, threshold).len());
    let mut scroll = ui.scroll;
    if let Some(row) = found {
        if row < scroll {
            scroll = row;
        } else if row - scroll >= visible {
            let keep: usize = if visible >= 1 {
                visible - 1
            } else {
                0
            };
            scroll = if row >= keep {
                row - keep
            } else {
                0
            };
        }
    }
    let limit: usize = if n >= visible {
        n - visible
    } else {
        0
    };
    if scroll > limit {
        scroll = limit;
    }
    ui.scroll = scroll;
    ListBody::Rows { rows, offset: scroll }
}

// ---------------------------------------------------------------------------
// The header, the footer and the input popup.
/// The name of an order, as the header shows it.
pub open spec fn sort_label(sort: SortMode) -> Seq<char> {
    match sort {
        SortMode::BodyId => "body id"@,
        SortMode::Value => "value"@,
        SortMode::Distance => "distance"@,
    }
}

/// The first position in `views` of a planet with id `id`.
pub open spec fn first_with_id(views: Seq<PlanetView>, id: u8) -> Option<int>
    decreases views.len(),
{
    if views.len() == 0 {
        None
    } else {
        match first_with_id(views.drop_last(), id) {
            Some(i) => Some(i),
            None => if views.last().id == id {
                Some(views.len() - 1)
            } else {
                None
            },
        }
    }
}

/// The header line: system name, body counts, order, threshold and the
/// name of the near planet.
pub open spec fn header_line_spec(
    system: Option<SystemSummary>,
    views: Seq<PlanetView>,
    sort: SortMode,
    threshold: u64,
) -> Seq<SpanV> {
    let name = match system {
        Some(s) => match s.star_name {
            Some(n) => n@,
            None => "waiting for system…"@,
        },
        None => "waiting for system…"@,
    };
    let bodies = match system {
        Some(s) => match s.total {
            Some(t) => decimal(s.scanned as nat) + "/"@ + decimal(t as nat) + " bodies"@,
            None => decimal(s.scanned as nat) + " bodies scanned"@,
        },
        None => Seq::empty(),
    };
    let near = match system {
        Some(s) => match s.near {
            Some(b) => match first_with_id(views, b) {
                Some(i) => views[i].name@,
                None => "—"@,
            },
            None => "—"@,
        },
        None => "—"@,
    };
    seq![
        (" "@ + name, Tone::Bold),
        ("  "@ + bodies, Tone::Plain),
        ("  sort: "@ + sort_label(sort), Tone::Plain),
        ("  threshold: "@ + grouped(decimal(threshold as nat)), Tone::Cyan),
        ("  near: "@ + near, Tone::Yellow),
    ]
}

/// The header names the first planet listed with the near body's id, and
/// shows a dash when there is no near body or no such planet.
pub proof fn law_header_names_near_planet(
    s: SystemSummary,
    views: Seq<PlanetView>,
    sort: SortMode,
    threshold: u64,
)
    ensures
        s.near matches Some(b) ==> (forall|j: int| 0 <= j < views.len() ==> (#[trigger] views[j]).id
            != b) ==> header_line_spec(Some(s), views, sort, threshold)[4] == (
            "  near: "@ + "—"@,
            Tone::Yellow,
        ),
        s.near matches Some(b) ==> forall|i: int|
            0 <= i < views.len() && (#[trigger] views[i]).id == b && (forall|j: int|
                0 <= j < i ==> views[j].id != b) ==> header_line_spec(
                Some(s),
                views,
                sort,
                threshold,
            )[4] == ("  near: "@ + views[i].name@, Tone::Yellow),
        s.near is None ==> header_line_spec(Some(s), views, sort, threshold)[4] == (
            "  near: "@ + "—"@,
            Tone::Yellow,
        ),
{
    if let Some(b) = s.near {
        lemma_first_with_id(views, b);
    }
}

proof fn lemma_first_with_id(views: Seq<PlanetView>, id: u8)
    ensures
        first_with_id(views, id) matches Some(i) ==> 0 <= i < views.len() && views[i].id == id
            && forall|j: int| 0 <= j < i ==> (#[trigger] views[j]).id != id,
        first_with_id(views, id) is None ==> forall|j: int|
            0 <= j < views.len() ==> (#[trigger] views[j]).id != id,
    decreases views.len(),
{
    if views.len() > 0 {
        lemma_first_with_id(views.drop_last(), id);
        assert forall|j: int| 0 <= j < views.len() - 1 implies views.drop_last()[j] == views[j] by {}
    }
}

fn find_view(views: &Vec<PlanetView>, id: u8) -> (r: Option<usize>)
    ensures
        r matches Some(i) ==> i < views@.len() && first_with_id(views@, id) == Some(i as int),
        r is None ==> first_with_id(views@, id) is None,
{
    let mut i: usize = 0;
    while i < views.len()
        invariant
            i <= views@.len(),
            first_with_id(views@.take(i as int), id) is None,
        decreases views@.len() - i,
    {
        assert(views@.take(i + 1).drop_last() == views@.take(i as int));
        if views[i].id == id {
            assert(first_with_id(views@.take(i + 1), id) == Some(i as int));
            proof {
                lemma_first_with_id_prefix(views@, i + 1, id);
            }
            return Some(i);
        }
        i = i + 1;
    }
    assert(views@.take(views@.len() as int) == views@);
    None
}

proof fn lemma_first_with_id_prefix(views: Seq<PlanetView>, k: int, id: u8)
    requires
        0 <= k <= views.len(),
        first_with_id(views.take(k), id) is Some,
    ensures
        first_with_id(views, id) == first_with_id(views.take(k), id),
    decreases views.len() - k,
{
    if k < views.len() {
        assert(views.take(k + 1).drop_last() == views.take(k));
        lemma_first_with_id_prefix(views, k + 1, id);
    } else {
        assert(views.take(k) == views);
    }
}

/// The header line of the view.
pub fn header_line(system: Option<&SystemSummary>, views: &Vec<PlanetView>, ui: &Ui) -> (row: Vec<
    Span,
>)
    ensures
        spans_view(row@) == header_line_spec(
            match system {
                Some(s) => Some(*s),
                None => None,
            },
            views@,
            ui.sort,
            ui.threshold,
        ),
{
    let mut name = String::from_str(" ");
    let mut bodies = String::from_str("  ");
    let mut near = String::from_str("  near: ");
    match system {
        Some(s) => {
            match &s.star_name {
                Some(n) => name.append(n.as_str()),
                None => name.append("waiting for system…"),
            }
            let scanned = decimal_string(s.scanned as u64);
            bodies.append(scanned.as_str());
            match s.total {
                Some(t) => {
                    bodies.append("/");
                    let total = decimal_string(t as u64);
                    bodies.append(total.as_str());
                    bodies.append(" bodies");
                },
                None => bodies.append(" bodies scanned"),
            }
            match s.near {
                Some(b) => match find_view(views, b) {
                    Some(i) => near.append(views[i].name.as_str()),
                    None => near.append("—"),
                },
                None => near.append("—"),
            }
        },
        None => {
            name.append("waiting for system…");
            near.append("—");
            proof {
                assert("  "@ + Seq::<char>::empty() == "  "@);
            }
        },
    }
    let mut sort = String::from_str("  sort: ");
    sort.append(ui.sort.label());
    let mut threshold = String::from_str("  threshold: ");
    let grouped_threshold = group(ui.threshold);
    threshold.append(grouped_threshold.as_str());
    let mut row: Vec<Span> = Vec::new();
    push_span(&mut row, span(name, Tone::Bold));
    push_span(&mut row, span(bodies, Tone::Plain));
    push_span(&mut row, span(sort, Tone::Plain));
    push_span(&mut row, span(threshold, Tone::Cyan));
    push_span(&mut row, span(near, Tone::Yellow));
    let ghost sys = match system {
        Some(s) => Some(*s),
        None => None,
    };
    let ghost expected = header_line_spec(sys, views@, ui.sort, ui.threshold);
    assert(name@ == expected[0].0);
    assert(bodies@ == expected[1].0);
    assert(near@ == expected[4].0);
    proof {
        if let Some(s) = system {
            if s.total is Some {
                assert(bodies@ == "  "@ + (decimal(s.scanned as nat) + "/"@ + decimal(
                    s.total->0 as nat,
                ) + " bodies"@));
            } else {
                assert(bodies@ == "  "@ + (decimal(s.scanned as nat) + " bodies scanned"@));
            }
        }
    }
    assert(spans_view(row@) =~= header_line_spec(
        match system {
            Some(s) => Some(*s),
            None => None,
        },
        views@,
        ui.sort,
        ui.threshold,
    ));
    row
}

/// The footer line: the keys, with the active order in bold, and the
/// journal directory.
pub open spec fn footer_line_spec(sort: SortMode, journal_dir: Seq<char>) -> Seq<SpanV> {
    seq![
        (" q quit"@, Tone::Dim),
        (" · "@, Tone::Plain),
        ("↑/↓ scroll"@, Tone::Dim),
        (" · "@, Tone::Plain),
        ("v value"@, if sort == SortMode::Value { Tone::Bold } else { Tone::Dim }),
        (" · "@, Tone::Plain),
        ("d distance"@, if sort == SortMode::Distance { Tone::Bold } else { Tone::Dim }),
        (" · "@, Tone::Plain),
        ("t threshold"@, Tone::Dim),
        ("   journal: "@ + journal_dir, Tone::Plain),
    ]
}

/// The footer line of the view.
pub fn footer_line(ui: &Ui) -> (row: Vec<Span>)
    ensures
        spans_view(row@) == footer_line_spec(ui.sort, ui.journal_dir@),
{
    let value_tone = if ui.sort == SortMode::Value {
        Tone::Bold
    } else {
        Tone::Dim
    };
    let distance_tone = if ui.sort == SortMode::Distance {
        Tone::Bold
    } else {
        Tone::Dim
    };
    let mut journal = String::from_str("   journal: ");
    journal.append(ui.journal_dir.as_str());
    let mut row: Vec<Span> = Vec::new();
    push_span(&mut row, lit(" q quit", Tone::Dim));
    push_span(&mut row, lit(" · ", Tone::Plain));
    push_span(&mut row, lit("↑/↓ scroll", Tone::Dim));
    push_span(&mut row, lit(" · ", Tone::Plain));
    push_span(&mut row, lit("v value", value_tone));
    push_span(&mut row, lit(" · ", Tone::Plain));
    push_span(&mut row, lit("d distance", distance_tone));
    push_span(&mut row, lit(" · ", Tone::Plain));
    push_span(&mut row, lit("t threshold", Tone::Dim));
    push_span(&mut row, span(journal, Tone::Plain));
    assert(spans_view(row@) =~= footer_line_spec(ui.sort, ui.journal_dir@));
    row
}

/// A rectangle of terminal cells.
#[derive(Clone, Copy, PartialEq, Eq, Structural, Debug)]
pub struct Area {
    pub x: u16,
    pub y: u16,
    pub width: u16,
    pub height: u16,
}

/// An input popup (threshold or route file): at most 40 by 5 cells, two cells smaller than the
/// screen, centred on it.
pub open spec fn popup_area_spec(area: Area) -> Area {
    let width = if 40 <= sat_sub(area.width as nat, 2) {
        40
    } else {
        sat_sub(area.width as nat, 2)
    };
    let height = if 5 <= sat_sub(area.height as nat, 2) {
        5
    } else {
        sat_sub(area.height as nat, 2)
    };
    Area {
        x: (area.x + (area.width - width) / 2) as u16,
        y: (area.y + (area.height - height) / 2) as u16,
        width: width as u16,
        height: height as u16,
    }
}

/// Where an input popup is drawn on a screen of `area`.
pub fn popup_area(area: Area) -> (r: Area)
    requires
        area.x + area.width <= u16::MAX,
        area.y + area.height <= u16::MAX,
    ensures
        r == popup_area_spec(area),
        r.x + r.width <= area.x + area.width,
        r.y + r.height <= area.y + area.height,
{
    let inner_width = area.width.saturating_sub(2);
    let inner_height = area.height.saturating_sub(2);
    let width: u16 = if 40 <= inner_width {
        40
    } else {
        inner_width
    };
    let height: u16 = if 5 <= inner_height {
        5
    } else {
        inner_height
    };
    Area {
        x: area.x + (area.width - width) / 2,
        y: area.y + (area.height - height) / 2,
        width,
        height,
    }
}

/// A popup lies inside the screen, centred on it (the right margin is
/// the left one or one cell more), and is 40 by 5 cells where the screen
/// leaves a cell of border around that, else as large as the border
/// allows.
pub proof fn law_popup_centred(area: Area)
    requires
        area.x + area.width <= u16::MAX,
        area.y + area.height <= u16::MAX,
    ensures
        ({
            let r = popup_area_spec(area);
            &&& area.x <= r.x && r.x + r.width <= area.x + area.width
            &&& area.y <= r.y && r.y + r.height <= area.y + area.height
            &&& r.x - area.x <= (area.x + area.width) - (r.x + r.width) <= r.x - area.x + 1
            &&& r.y - area.y <= (area.y + area.height) - (r.y + r.height) <= r.y - area.y + 1
            &&& area.width >= 42 ==> r.width == 40
            &&& area.width < 42 ==> r.width == sat_sub(area.width as nat, 2)
            &&& area.height >= 7 ==> r.height == 5
            &&& area.height < 7 ==> r.height == sat_sub(area.height as nat, 2)
        }),
{
}

/// The lines of the popup: what was typed, then the complaint or a hint.
pub open spec fn popup_lines_spec(buffer: Seq<char>, error: Option<Seq<char>>) -> Seq<Seq<SpanV>> {
    seq![
        seq![("> "@ + buffer, Tone::Bold)],
        match error {
            Some(e) => seq![(e, Tone::Red)],
            None => seq![("Enter to apply · Esc to cancel"@, Tone::Dim)],
        },
    ]
}

/// The title of a popup.
pub open spec fn popup_title(purpose: Purpose) -> Seq<char> {
    match purpose {
        Purpose::Threshold => " Species value threshold "@,
        Purpose::RoutePath => " Route file "@,
    }
}

/// The lines of an input popup.
pub fn popup_lines(input: &Input) -> (rows: Vec<Vec<Span>>)
    ensures
        rows_view(rows@) == popup_lines_spec(input@.buffer, input@.error),
{
    let mut typed = String::from_str("> ");
    typed.append(input.buffer.as_str());
    let mut first: Vec<Span> = Vec::new();
    push_span(&mut first, span(typed, Tone::Bold));
    let mut second: Vec<Span> = Vec::new();
    match &input.error {
        Some(e) => push_span(&mut second, span(e.clone(), Tone::Red)),
        None => push_span(&mut second, lit("Enter to apply · Esc to cancel", Tone::Dim)),
    }
    let ghost fv = spans_view(first@);
    let ghost sv = spans_view(second@);
    assert(fv =~= seq![("> "@ + input@.buffer, Tone::Bold)]);
    assert(sv =~= match input@.error {
        Some(e) => seq![(e, Tone::Red)],
        None => seq![("Enter to apply · Esc to cancel"@, Tone::Dim)],
    });
    let mut rows: Vec<Vec<Span>> = Vec::new();
    rows.push(first);
    rows.push(second);
    assert(rows_view(rows@) =~= seq![fv, sv]);
    assert(rows_view(rows@) =~= popup_lines_spec(input@.buffer, input@.error));
    rows
}

/// The title of a popup.
pub fn popup_title_text(purpose: Purpose) -> (s: String)
    ensures
        s@ == popup_title(purpose),
{
    match purpose {
        Purpose::Threshold => String::from_str(" Species value threshold "),
        Purpose::RoutePath => String::from_str(" Route file "),
    }
}

/// The route panel: how many stops are done, the stop just ticked off and
/// the next destination, or that the route is complete.
pub open spec fn route_line_spec(r: RouteState) -> Seq<SpanV> {
    let head = seq![
        (" route "@, Tone::Bold),
        (decimal(r.done) + "/"@ + decimal(r.stops.len()), Tone::Plain),
    ];
    let last = if r.done > 0 {
        seq![("  ✓ "@ + r.stops[r.done - 1].name@, Tone::Green)]
    } else {
        Seq::empty()
    };
    let next = if r.done < r.stops.len() {
        seq![("  next: "@ + r.stops[r.done as int].name@, Tone::Yellow)]
    } else {
        seq![("  complete"@, Tone::BoldGreen)]
    };
    head + last + next
}

/// The route panel counts the stops done out of all, names the stop just
/// ticked off when there is one, and then the next destination, or says
/// that the route is complete.
pub proof fn law_route_panel(r: RouteState)
    requires
        r.done <= r.stops.len(),
    ensures
        route_line_spec(r)[1] == (decimal(r.done) + "/"@ + decimal(r.stops.len()), Tone::Plain),
        route_line_spec(r).len() == if r.done > 0 {
            4nat
        } else {
            3nat
        },
        r.done > 0 ==> route_line_spec(r)[2] == ("  ✓ "@ + r.stops[r.done - 1].name@, Tone::Green),
        route_line_spec(r).last() == if r.done < r.stops.len() {
            ("  next: "@ + r.stops[r.done as int].name@, Tone::Yellow)
        } else {
            ("  complete"@, Tone::BoldGreen)
        },
{
}

/// The route panel of a loaded route.
pub fn route_line(route: &Route) -> (row: Vec<Span>)
    ensures
        spans_view(row@) == route_line_spec(RouteState { stops: route.stops(), done: route.done() }),
{
    let mut row: Vec<Span> = Vec::new();
    push_span(&mut row, lit(" route ", Tone::Bold));
    let mut count = decimal_string(route.visited() as u64);
    count.append("/");
    let total = decimal_string(route.len() as u64);
    count.append(total.as_str());
    push_span(&mut row, span(count, Tone::Plain));
    let ghost head = spans_view(row@);
    if let Some(stop) = route.last() {
        let mut t = String::from_str("  ✓ ");
        t.append(stop.name.as_str());
        push_span(&mut row, span(t, Tone::Green));
    }
    let ghost with_last = spans_view(row@);
    match route.next() {
        Some(stop) => {
            let mut t = String::from_str("  next: ");
            t.append(stop.name.as_str());
            push_span(&mut row, span(t, Tone::Yellow));
        },
        None => {
            push_span(&mut row, lit("  complete", Tone::BoldGreen));
        },
    }
    assert(spans_view(row@) =~= route_line_spec(
        RouteState { stops: route.stops(), done: route.done() },
    ));
    row
}

} // verus!
