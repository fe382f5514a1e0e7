use vstd::prelude::*;
use vstd::string::StringExecFns;
use vstd::utf8::{encode_utf8, is_ascii_chars, is_ascii_chars_encode_utf8};

use crate::collection::views;
use crate::drift::measured_span;
use crate::format::{
    decimal_text, digits, push_decimal, push_digits, push_signed_decimal, signed_decimal_text,
};
use crate::watch::{last_complete, Measure, Watch, WatchView};

verus! {

/// The length of the UTF-8 encoding of `s`, as `str::len` gives it.
pub open spec fn byte_len(s: Seq<char>) -> usize {
    encode_utf8(s).len() as usize
}

proof fn lemma_label_lengths()
    ensures
        byte_len("Type"@) == 4,
        byte_len("Quartz"@) == 6,
        byte_len("Mechanical"@) == 10,
{
    reveal_strlit("Type");
    reveal_strlit("Quartz");
    reveal_strlit("Mechanical");
    assert(is_ascii_chars("Type"@));
    assert(is_ascii_chars("Quartz"@));
    assert(is_ascii_chars("Mechanical"@));
    is_ascii_chars_encode_utf8("Type"@);
    is_ascii_chars_encode_utf8("Quartz"@);
    is_ascii_chars_encode_utf8("Mechanical"@);
}


/// `n` copies of the character `c`.
pub open spec fn repeated(c: char, n: nat) -> Seq<char> {
    Seq::new(n, |i: int| c)
}

/// Spaces to put left and right of a text of `s` so that it takes `width`
/// bytes, centred, the odd space on the right.
pub open spec fn padding(s: Seq<char>, width: usize) -> (usize, usize) {
    let free = width - byte_len(s);
    ((free / 2) as usize, (free - free / 2) as usize)
}

/// `s` centred in a field of `width` bytes.
pub open spec fn padded(s: Seq<char>, width: usize) -> Seq<char> {
    repeated(' ', padding(s, width).0 as nat) + s + repeated(' ', padding(s, width).1 as nat)
}

/// One cell of a line and the bar that closes it.
pub open spec fn cell_text(s: Seq<char>, width: usize) -> Seq<char> {
    seq![' '] + padded(s, width) + seq![' ', '|']
}

/// Widths, in bytes, of the name, type, drift and wears columns.
pub type Widths = (usize, usize, usize, usize);

/// One line of the table.
pub open spec fn line(
    name: Seq<char>,
    kind: Seq<char>,
    drift: Seq<char>,
    wears: Seq<char>,
    widths: Widths,
) -> Seq<char> {
    seq!['|'] + cell_text(name, widths.0) + cell_text(kind, widths.1) + cell_text(drift, widths.2)
        + cell_text(wears, widths.3) + seq!['\n']
}

/// The line that parts the header from the body.
pub open spec fn rule(widths: Widths) -> Seq<char> {
    seq!['|'] + repeated('-', (widths.0 + 2) as nat) + seq!['|'] + repeated('-', (widths.1 + 2) as nat) + seq!['|']
        + repeated('-', (widths.2 + 2) as nat) + seq!['|'] + repeated('-', (widths.3 + 2) as nat) + seq!['|', '\n']
}

/// The name shown for a watch: marked with stars while its last measure is
/// still open.
pub open spec fn name_cell(w: WatchView) -> Seq<char> {
    if w.measures.len() > 0 && w.measures.last().measure_end is None {
        "* "@ + w.name + " *"@
    } else {
        w.name
    }
}

/// The drift shown for a watch: that of its last measure, with the unit and
/// the span of its last complete measure; "??" where there is none.
pub open spec fn drift_cell(w: WatchView) -> Seq<char> {
    let last_drift = if w.measures.len() > 0 {
        w.measures.last().drift
    } else {
        None
    };
    match (last_drift, last_complete(w.measures)) {
        (Some(d), Some(m)) => {
            let span = measured_span(m.measure_start->Some_0, m.measure_end->Some_0);
            signed_decimal_text(d as int, 3) + "s/"@ + w.movement.unit_label() + ", ("@
                + decimal_text(span.0, 2) + " "@ + span.1.spec_label() + ")"@
        },
        _ => "??"@,
    }
}

/// The number of days a watch was worn on.
pub open spec fn wears_cell(w: WatchView) -> Seq<char> {
    digits(w.logs.len()) + " days"@
}

/// The widest of `cells` and `min`, in bytes.
pub open spec fn max_width(cells: Seq<Seq<char>>, min: usize) -> usize
    decreases cells.len(),
{
    if cells.len() == 0 {
        min
    } else {
        let rest = max_width(cells.drop_last(), min);
        if byte_len(cells.last()) > rest {
            byte_len(cells.last())
        } else {
            rest
        }
    }
}

/// Where a watch worn `count` times goes in a sequence ordered from most to
/// least worn: before the first that is not worn more.
pub open spec fn insertion_point(sorted: Seq<WatchView>, count: nat) -> int
    decreases sorted.len(),
{
    if sorted.len() == 0 {
        0
    } else if sorted[0].logs.len() <= count {
        0
    } else {
        1 + insertion_point(sorted.drop_first(), count)
    }
}

/// The watches from most to least worn; of those worn equally often, the
/// later in the collection comes first.
pub open spec fn sorted_by_wears(watches: Seq<WatchView>) -> Seq<WatchView>
    decreases watches.len(),
{
    if watches.len() == 0 {
        Seq::empty()
    } else {
        let sorted = sorted_by_wears(watches.drop_last());
        sorted.insert(insertion_point(sorted, watches.last().logs.len()), watches.last())
    }
}

/// The lines of the body, one per row, for the first `n` rows.
pub open spec fn body(
    names: Seq<Seq<char>>,
    kinds: Seq<Seq<char>>,
    drifts: Seq<Seq<char>>,
    wears: Seq<Seq<char>>,
    widths: Widths,
    n: nat,
) -> Seq<char>
    decreases n,
{
    if n == 0 {
        Seq::empty()
    } else {
        body(names, kinds, drifts, wears, widths, (n - 1) as nat) + line(
            names[n - 1],
            kinds[n - 1],
            drifts[n - 1],
            wears[n - 1],
            widths,
        )
    }
}

/// The summary table of a collection, as markdown: a blank line, the header,
/// the rule, and one line per watch from most to least worn. Each column is
/// as wide as its widest text; the type column as wide as "Mechanical".
pub open spec fn table_text(watches: Seq<WatchView>) -> Seq<char> {
    let rows = sorted_by_wears(watches);
    let names = rows.map_values(|w: WatchView| name_cell(w));
    let kinds = rows.map_values(|w: WatchView| w.movement.label());
    let drifts = rows.map_values(|w: WatchView| drift_cell(w));
    let wears = rows.map_values(|w: WatchView| wears_cell(w));
    let kind_width = if byte_len("Type"@) > byte_len("Mechanical"@) {
        byte_len("Type"@)
    } else {
        byte_len("Mechanical"@)
    };
    let widths = (
        max_width(names, byte_len("Watch Name"@)),
        kind_width,
        max_width(drifts, byte_len("Drift"@)),
        max_width(wears, byte_len("Num. Wears"@)),
    );
    seq!['\n'] + line("Watch Name"@, "Type"@, "Drift"@, "Num. Wears"@, widths) + rule(widths)
        + body(names, kinds, drifts, wears, widths, rows.len())
}

/// The views of a sequence of strings.
pub open spec fn texts(v: Seq<String>) -> Seq<Seq<char>> {
    v.map_values(|s: String| s@)
}

proof fn lemma_max_width(cells: Seq<Seq<char>>, min: usize)
    ensures
        max_width(cells, min) >= min,
        forall|i: int| 0 <= i < cells.len() ==> max_width(cells, min) >= byte_len(#[trigger] cells[i]),
    decreases cells.len(),
{
    if cells.len() > 0 {
        lemma_max_width(cells.drop_last(), min);
        assert forall|i: int| 0 <= i < cells.len() implies max_width(cells, min) >= byte_len(
            #[trigger] cells[i],
        ) by {
            if i < cells.len() - 1 {
                assert(cells[i] == cells.drop_last()[i]);
            }
        }
    }
}

proof fn lemma_last_complete_is_complete(measures: Seq<Measure>)
    ensures
        last_complete(measures) matches Some(m) ==> m.spec_is_complete(),
    decreases measures.len(),
{
    if measures.len() > 0 {
        lemma_last_complete_is_complete(measures.drop_last());
    }
}

proof fn lemma_insertion_point_at(sorted: Seq<WatchView>, count: nat, k: int)
    requires
        0 <= k <= sorted.len(),
        forall|j: int| 0 <= j < k ==> #[trigger] sorted[j].logs.len() > count,
        k < sorted.len() ==> sorted[k].logs.len() <= count,
    ensures
        insertion_point(sorted, count) == k,
    decreases sorted.len(),
{
    if sorted.len() > 0 && k > 0 {
        assert(sorted[0].logs.len() > count);
        assert forall|j: int| 0 <= j < k - 1 implies #[trigger] sorted.drop_first()[j].logs.len()
            > count by {
            assert(sorted.drop_first()[j] == sorted[j + 1]);
        }
        lemma_insertion_point_at(sorted.drop_first(), count, k - 1);
    }
}

/// How many spaces go left and right of `s` to centre it in `len` bytes.
pub fn get_left_right_padding(s: &str, len: usize) -> (r: (usize, usize))
    requires
        len >= byte_len(s@),
    ensures
        r == padding(s@, len),
{
    let left = (len - s.len()) / 2;
    let right = len - s.len() - left;
    (left, right)
}

fn push_repeated(out: &mut String, piece: &str, n: usize)
    requires
        piece@.len() == 1,
    ensures
        final(out)@ == old(out)@ + repeated(piece@[0], n as nat),
{
    let mut i: usize = 0;
    while i < n
        invariant
            i <= n,
            piece@.len() == 1,
            out@ == old(out)@ + repeated(piece@[0], i as nat),
        decreases n - i,
    {
        out.append(piece);
        i = i + 1;
        assert(out@ =~= old(out)@ + repeated(piece@[0], i as nat));
    }
}

fn push_cell(out: &mut String, s: &str, width: usize)
    requires
        width >= byte_len(s@),
    ensures
        final(out)@ == old(out)@ + cell_text(s@, width),
{
    proof {
        reveal_strlit(" ");
        reveal_strlit(" |");
    }
    let (left, right) = get_left_right_padding(s, width);
    out.append(" ");
    push_repeated(out, " ", left);
    out.append(s);
    push_repeated(out, " ", right);
    out.append(" |");
    assert(final(out)@ =~= old(out)@ + cell_text(s@, width));
}

fn push_line(out: &mut String, name: &str, kind: &str, drift: &str, wears: &str, widths: Widths)
    requires
        widths.0 >= byte_len(name@),
        widths.1 >= byte_len(kind@),
        widths.2 >= byte_len(drift@),
        widths.3 >= byte_len(wears@),
    ensures
        final(out)@ == old(out)@ + line(name@, kind@, drift@, wears@, widths),
{
    proof {
        reveal_strlit("|");
        reveal_strlit("\n");
    }
    out.append("|");
    push_cell(out, name, widths.0);
    push_cell(out, kind, widths.1);
    push_cell(out, drift, widths.2);
    push_cell(out, wears, widths.3);
    out.append("\n");
    assert(final(out)@ =~= old(out)@ + line(name@, kind@, drift@, wears@, widths));
}

fn push_rule(out: &mut String, widths: Widths)
    ensures
        final(out)@ == old(out)@ + rule(widths),
{
    proof {
        reveal_strlit("|");
        reveal_strlit("-");
        reveal_strlit("--|");
        reveal_strlit("\n");
    }
    out.append("|");
    push_repeated(out, "-", widths.0);
    out.append("--|");
    push_repeated(out, "-", widths.1);
    out.append("--|");
    push_repeated(out, "-", widths.2);
    out.append("--|");
    push_repeated(out, "-", widths.3);
    out.append("--|");
    out.append("\n");
    assert(repeated('-', widths.0 as nat) + seq!['-', '-'] =~= repeated('-', (widths.0 + 2) as nat));
    assert(repeated('-', widths.1 as nat) + seq!['-', '-'] =~= repeated('-', (widths.1 + 2) as nat));
    assert(repeated('-', widths.2 as nat) + seq!['-', '-'] =~= repeated('-', (widths.2 + 2) as nat));
    assert(repeated('-', widths.3 as nat) + seq!['-', '-'] =~= repeated('-', (widths.3 + 2) as nat));
    assert(final(out)@ =~= old(out)@ + rule(widths));
}

impl Watch {
    /// The name shown for the watch in the table.
    pub fn table_print_name(&self) -> (r: String)
        ensures
            r@ == name_cell(self@),
    {
        let n = self.measures.len();
        if n > 0 && self.measures[n - 1].measure_end.is_none() {
            let mut s = "* ".to_owned();
            s.append(self.name.as_str());
            s.append(" *");
            return s;
        }
        self.name.clone()
    }

    /// The drift shown for the watch in the table.
    pub fn drift_cell(&self) -> (r: String)
        ensures
            r@ == drift_cell(self@),
    {
        proof {
            lemma_last_complete_is_complete(self@.measures);
        }
        match (self.drift(), self.last_complete_measure()) {
            (Some(d), Some(m)) => {
                let (span, unit) = m.get_measure_time();
                let mut s = String::new();
                push_signed_decimal(&mut s, d, 3);
                s.append("s/");
                s.append(self.movement.unit_str());
                s.append(", (");
                push_decimal(&mut s, span as i128, 2);
                s.append(" ");
                s.append(unit.label());
                s.append(")");
                assert(s@ =~= drift_cell(self@));
                s
            },
            _ => "??".to_owned(),
        }
    }

    /// The number of days the watch was worn on, as shown in the table.
    pub fn wears_cell(&self) -> (r: String)
        ensures
            r@ == wears_cell(self@),
    {
        let mut s = String::new();
        push_digits(&mut s, self.logs.len() as u128);
        s.append(" days");
        s
    }
}

fn sort_by_wears(watches: &Vec<Watch>) -> (r: Vec<Watch>)
    ensures
        views(r@) == sorted_by_wears(views(watches@)),
{
    let mut sorted: Vec<Watch> = Vec::new();
    let mut i: usize = 0;
    while i < watches.len()
        invariant
            i <= watches@.len(),
            views(sorted@) == sorted_by_wears(views(watches@.subrange(0, i as int))),
        decreases watches@.len() - i,
    {
        let count = watches[i].logs.len();
        let mut k: usize = 0;
        while k < sorted.len() && sorted[k].logs.len() > count
            invariant
                k <= sorted@.len(),
                forall|j: int| 0 <= j < k ==> #[trigger] views(sorted@)[j].logs.len() > count,
            decreases sorted@.len() - k,
        {
            k = k + 1;
        }
        let ghost before = views(sorted@);
        proof {
            lemma_insertion_point_at(before, count as nat, k as int);
            let prefix = views(watches@.subrange(0, i + 1));
            assert(prefix.drop_last() == views(watches@.subrange(0, i as int)));
            assert(prefix.last() == watches@[i as int]@);
        }
        let w = watches[i].duplicate();
        sorted.insert(k, w);
        assert(views(sorted@) =~= before.insert(k as int, w@));
        i = i + 1;
    }
    assert(watches@.subrange(0, i as int) == watches@);
    sorted
}

fn column_width(cells: &Vec<String>, min: usize) -> (r: usize)
    ensures
        r == max_width(texts(cells@), min),
{
    let mut width = min;
    let mut i: usize = 0;
    while i < cells.len()
        invariant
            i <= cells@.len(),
            width == max_width(texts(cells@.subrange(0, i as int)), min),
        decreases cells@.len() - i,
    {
        let ghost prefix = texts(cells@.subrange(0, i + 1));
        assert(prefix.drop_last() == texts(cells@.subrange(0, i as int)));
        let len = cells[i].as_str().len();
        if len > width {
            width = len;
        }
        i = i + 1;
    }
    assert(cells@.subrange(0, i as int) == cells@);
    width
}

/// The summary table of `watches`, as markdown (see `table_text`).
pub fn markdown_table(watches: &Vec<Watch>) -> (r: String)
    ensures
        r@ == table_text(views(watches@)),
{
    let sorted = sort_by_wears(watches);
    let ghost rows = views(sorted@);
    let mut names: Vec<String> = Vec::new();
    let mut kinds: Vec<String> = Vec::new();
    let mut drifts: Vec<String> = Vec::new();
    let mut wears: Vec<String> = Vec::new();
    let mut i: usize = 0;
    while i < sorted.len()
        invariant
            i <= sorted@.len(),
            rows == views(sorted@),
            texts(names@) == rows.subrange(0, i as int).map_values(|w: WatchView| name_cell(w)),
            texts(kinds@) == rows.subrange(0, i as int).map_values(
                |w: WatchView| w.movement.label(),
            ),
            texts(drifts@) == rows.subrange(0, i as int).map_values(|w: WatchView| drift_cell(w)),
            texts(wears@) == rows.subrange(0, i as int).map_values(|w: WatchView| wears_cell(w)),
        decreases sorted@.len() - i,
    {
        let ghost (n0, k0, d0, w0) = (names@, kinds@, drifts@, wears@);
        names.push(sorted[i].table_print_name());
        kinds.push(sorted[i].movement.to_str().to_owned());
        drifts.push(sorted[i].drift_cell());
        wears.push(sorted[i].wears_cell());
        proof {
            let next = rows.subrange(0, i + 1);
            assert(next == rows.subrange(0, i as int).push(rows[i as int]));
            assert(texts(names@) == texts(n0).push(name_cell(rows[i as int])));
            assert(texts(kinds@) == texts(k0).push(rows[i as int].movement.label()));
            assert(texts(drifts@) == texts(d0).push(drift_cell(rows[i as int])));
            assert(texts(wears@) == texts(w0).push(wears_cell(rows[i as int])));
            assert(texts(names@) =~= next.map_values(|w: WatchView| name_cell(w)));
            assert(texts(kinds@) =~= next.map_values(|w: WatchView| w.movement.label()));
            assert(texts(drifts@) =~= next.map_values(|w: WatchView| drift_cell(w)));
            assert(texts(wears@) =~= next.map_values(|w: WatchView| wears_cell(w)));
        }
        i = i + 1;
    }
    assert(rows.subrange(0, i as int) == rows);
    let ghost name_texts = rows.map_values(|w: WatchView| name_cell(w));
    let ghost kind_texts = rows.map_values(|w: WatchView| w.movement.label());
    let ghost drift_texts = rows.map_values(|w: WatchView| drift_cell(w));
    let ghost wear_texts = rows.map_values(|w: WatchView| wears_cell(w));
    let type_header = "Type";
    let longest_kind = "Mechanical";
    let kind_width = if type_header.len() > longest_kind.len() {
        type_header.len()
    } else {
        longest_kind.len()
    };
    let widths: Widths = (
        column_width(&names, "Watch Name".len()),
        kind_width,
        column_width(&drifts, "Drift".len()),
        column_width(&wears, "Num. Wears".len()),
    );
    proof {
        lemma_label_lengths();
        lemma_max_width(name_texts, byte_len("Watch Name"@));
        lemma_max_width(drift_texts, byte_len("Drift"@));
        lemma_max_width(wear_texts, byte_len("Num. Wears"@));
        reveal_strlit("\n");
    }
    let mut out = "\n".to_owned();
    push_line(&mut out, "Watch Name", "Type", "Drift", "Num. Wears", widths);
    push_rule(&mut out, widths);
    let ghost head = out@;
    let mut r: usize = 0;
    while r < sorted.len()
        invariant
            r <= sorted@.len(),
            rows == views(sorted@),
            texts(names@) == name_texts,
            texts(kinds@) == kind_texts,
            texts(drifts@) == drift_texts,
            texts(wears@) == wear_texts,
            kind_texts == rows.map_values(|w: WatchView| w.movement.label()),
            rows.len() == names@.len() && rows.len() == kinds@.len() && rows.len() == drifts@.len()
                && rows.len() == wears@.len(),
            widths.0 == max_width(name_texts, byte_len("Watch Name"@)),
            widths.1 == 10,
            widths.2 == max_width(drift_texts, byte_len("Drift"@)),
            widths.3 == max_width(wear_texts, byte_len("Num. Wears"@)),
            forall|j: int|
                0 <= j < rows.len() ==> widths.0 >= byte_len(#[trigger] name_texts[j]),
            forall|j: int|
                0 <= j < rows.len() ==> widths.2 >= byte_len(#[trigger] drift_texts[j]),
            forall|j: int|
                0 <= j < rows.len() ==> widths.3 >= byte_len(#[trigger] wear_texts[j]),
            out@ == head + body(name_texts, kind_texts, drift_texts, wear_texts, widths, r as nat),
        decreases sorted@.len() - r,
    {
        proof {
            assert(name_texts[r as int] == names@[r as int]@);
            assert(kind_texts[r as int] == kinds@[r as int]@);
            assert(drift_texts[r as int] == drifts@[r as int]@);
            assert(wear_texts[r as int] == wears@[r as int]@);
            assert(byte_len(kind_texts[r as int]) <= 10) by {
                lemma_label_lengths();
                assert(kind_texts[r as int] == rows[r as int].movement.label());
            }
        }
        push_line(
            &mut out,
            names[r].as_str(),
            kinds[r].as_str(),
            drifts[r].as_str(),
            wears[r].as_str(),
            widths,
        );
        r = r + 1;
        assert(out@ =~= head + body(name_texts, kind_texts, drift_texts, wear_texts, widths, r as nat));
    }
    assert(out@ =~= table_text(views(watches@)));
    out
}

/// The summary table of every watch of the collection.
pub fn handle_print(watches: &Vec<Watch>) -> (r: String)
    ensures
        r@ == table_text(views(watches@)),
{
    markdown_table(watches)
}

} // verus!
