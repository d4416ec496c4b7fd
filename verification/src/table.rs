//! Two-column text tables: labels right-aligned to the widest label, then a
//! colon and the value, one row per line.

use vstd::prelude::*;
use crate::text::{append_str, chars_of, join, push_char};

verus! {

/// `n` spaces.
pub open spec fn spaces(n: nat) -> Seq<char> {
    Seq::new(n, |_i: int| ' ')
}

/// `s` right-aligned in a field of `width` characters.
pub open spec fn pad_left(s: Seq<char>, width: nat) -> Seq<char> {
    if s.len() < width {
        spaces((width - s.len()) as nat) + s
    } else {
        s
    }
}

/// The length of the longest label, or zero when there is none.
pub open spec fn max_width(labels: Seq<Seq<char>>) -> nat
    decreases labels.len(),
{
    if labels.len() == 0 {
        0
    } else {
        let w = max_width(labels.drop_last());
        if labels.last().len() > w {
            labels.last().len()
        } else {
            w
        }
    }
}

/// The rows of a table whose labels are aligned to `width`.
pub open spec fn table_lines(labels: Seq<Seq<char>>, values: Seq<Seq<char>>, width: nat) -> Seq<Seq<char>> {
    Seq::new(labels.len(), |i: int| pad_left(labels[i], width) + ": "@ + values[i])
}

/// The text of a table: its rows aligned to the longest label, one per line.
pub open spec fn aligned_table(labels: Seq<Seq<char>>, values: Seq<Seq<char>>) -> Seq<char> {
    join(table_lines(labels, values, max_width(labels)), "\n"@)
}

proof fn lemma_max_width_bound(labels: Seq<Seq<char>>, i: int)
    requires
        0 <= i < labels.len(),
    ensures
        labels[i].len() <= max_width(labels),
    decreases labels.len(),
{
    if i < labels.len() - 1 {
        assert(labels.drop_last()[i] == labels[i]);
        lemma_max_width_bound(labels.drop_last(), i);
    }
}

/// The labels of rows.
pub open spec fn row_labels(rows: Seq<(String, String)>) -> Seq<Seq<char>> {
    rows.map_values(|r: (String, String)| r.0@)
}

/// The values of rows.
pub open spec fn row_values(rows: Seq<(String, String)>) -> Seq<Seq<char>> {
    rows.map_values(|r: (String, String)| r.1@)
}

/// Lays out rows of `label: value`, each label right-aligned to the longest
/// one (in characters), the rows separated by newlines.
pub fn format_aligned(rows: &[(String, String)]) -> (r: String)
    ensures
        r@ == aligned_table(row_labels(rows@), row_values(rows@)),
{
    let ghost lv = row_labels(rows@);
    let ghost vv = row_values(rows@);
    let mut width: usize = 0;
    let mut i: usize = 0;
    while i < rows.len()
        invariant
            i <= rows@.len(),
            lv == row_labels(rows@),
            width == max_width(lv.take(i as int)),
            width <= usize::MAX,
        decreases rows@.len() - i,
    {
        let n = chars_of(rows[i].0.as_str()).len();
        assert(lv.take(i + 1).drop_last() == lv.take(i as int));
        assert(lv.take(i + 1).last() == rows@[i as int].0@);
        if n > width {
            width = n;
        }
        i = i + 1;
    }
    assert(lv.take(rows@.len() as int) == lv);
    let ghost lines = table_lines(lv, vv, width as nat);
    let mut r = String::new();
    let mut k: usize = 0;
    while k < rows.len()
        invariant
            k <= rows@.len(),
            lv == row_labels(rows@),
            vv == row_values(rows@),
            width == max_width(lv),
            lines == table_lines(lv, vv, width as nat),
            r@ == join(lines.take(k as int), "\n"@),
        decreases rows@.len() - k,
    {
        proof {
            lemma_max_width_bound(lv, k as int);
        }
        let label = chars_of(rows[k].0.as_str());
        let ghost before = r@;
        if k > 0 {
            push_char(&mut r, '\n');
        }
        let mut p: usize = label.len();
        let ghost pad_start = r@;
        while p < width
            invariant
                label@.len() <= p <= width,
                r@ == pad_start + spaces((p - label@.len()) as nat),
            decreases width - p,
        {
            push_char(&mut r, ' ');
            assert(spaces((p + 1 - label@.len()) as nat) =~= spaces((p - label@.len()) as nat).push(' '));
            p = p + 1;
        }
        append_str(&mut r, rows[k].0.as_str());
        append_str(&mut r, ": ");
        append_str(&mut r, rows[k].1.as_str());
        proof {
            assert(lines.take(k + 1).drop_last() == lines.take(k as int));
            assert(lines.take(k + 1).last() == lines[k as int]);
            assert(lines[k as int] == pad_left(lv[k as int], width as nat) + ": "@ + vv[k as int]);
            if label@.len() < width {
                assert(pad_left(lv[k as int], width as nat) == spaces((width - label@.len()) as nat) + lv[k as int]);
            } else {
                assert(spaces(0) =~= Seq::<char>::empty());
            }
            if k == 0 {
                assert(r@ =~= lines[0]);
            } else {
                reveal_strlit("\n");
                assert(r@ =~= before + "\n"@ + lines[k as int]);
            }
        }
        k = k + 1;
    }
    assert(lines.take(rows@.len() as int) == lines);
    r
}

/// Every row of a table has its label right-aligned to the same column,
/// the width of the longest label, with the label text kept whole.
pub proof fn law_labels_align(labels: Seq<Seq<char>>, values: Seq<Seq<char>>, i: int)
    requires
        0 <= i < labels.len(),
        labels.len() == values.len(),
    ensures
        pad_left(labels[i], max_width(labels)).len() == max_width(labels),
        pad_left(labels[i], max_width(labels)).skip(max_width(labels) - labels[i].len()) == labels[i],
        table_lines(labels, values, max_width(labels))[i] == pad_left(labels[i], max_width(labels)) + ": "@ + values[i],
{
    lemma_max_width_bound(labels, i);
    let w = max_width(labels);
    if labels[i].len() < w {
        assert(pad_left(labels[i], w).skip(w - labels[i].len()) =~= labels[i]);
    } else {
        assert(labels[i].skip(0) =~= labels[i]);
    }
}

} // verus!
