//! Column layout for terminal output.

use vstd::prelude::*;
use vstd::string::StrSliceExecFns;
use vstd::string::StringExecFns;

verus! {

/// `n` spaces.
pub open spec fn spaces(n: int) -> Seq<char> {
    if n <= 0 {
        Seq::empty()
    } else {
        Seq::new(n as nat, |i: int| ' ')
    }
}

/// The width of column `j` when `data` is laid out row-major over
/// `n_cols` columns: the longest cell of that column plus two.
pub open spec fn col_width(data: Seq<Seq<char>>, n_cols: int, j: int) -> int
    decreases data.len(),
{
    if data.len() == 0 {
        0int
    } else {
        let w = col_width(data.drop_last(), n_cols, j);
        if (data.len() - 1) % n_cols == j && data.last().len() + 2 > w {
            data.last().len() as int + 2
        } else {
            w
        }
    }
}

/// One laid-out cell: the text, padding up to its column's width, and the
/// two-space gutter.
pub open spec fn spec_cell(s: Seq<char>, w: int) -> Seq<char> {
    s + spaces(w - s.len()) + "  "@
}

/// The rendered layout from item `i` on: cells in row-major order, a line
/// break after each full row.
pub open spec fn spec_cols(data: Seq<Seq<char>>, n_cols: int, i: int) -> Seq<char>
    recommends
        n_cols > 0,
    decreases data.len() - i,
    when 0 <= i && n_cols > 0
{
    if i >= data.len() {
        Seq::empty()
    } else {
        spec_cell(data[i], col_width(data, n_cols, i % n_cols)) + (if (i + 1) % n_cols == 0 {
            "\n"@
        } else {
            Seq::empty()
        }) + spec_cols(data, n_cols, i + 1)
    }
}

/// Every item's cell fits its column.
proof fn lemma_col_width_ge(data: Seq<Seq<char>>, n_cols: int, i: int)
    requires
        n_cols > 0,
        0 <= i < data.len(),
    ensures
        col_width(data, n_cols, i % n_cols) >= data[i].len() + 2,
    decreases data.len(),
{
    if i < data.len() - 1 {
        lemma_col_width_ge(data.drop_last(), n_cols, i);
        assert(data.drop_last()[i] == data[i]);
    }
}

/// Append `n` spaces.
fn push_spaces(out: &mut String, n: usize)
    ensures
        final (out)@ == old(out)@ + spaces(n as int),
{
    proof {
        reveal_strlit(" ");
    }
    let mut k: usize = 0;
    while k < n
        invariant
            k <= n,
            out@ == old(out)@ + spaces(k as int),
        decreases n - k,
    {
        out.append(" ");
        proof {
            reveal_strlit(" ");
            assert(old(out)@ + spaces(k + 1) =~= (old(out)@ + spaces(k as int)) + " "@);
        }
        k = k + 1;
    }
}

/// Lay items out in `n_cols` columns: each column as wide as its longest
/// item plus two, a two-space gutter after every cell, and a line break
/// after each full row.
pub fn get_formatted_cols(data: &Vec<String>, n_cols: usize) -> (r: String)
    requires
        n_cols > 0,
        forall|j: int| 0 <= j < data@.len() ==> (#[trigger] data@[j])@.len() + 2 <= usize::MAX,
    ensures
        r@ == spec_cols(data@.map_values(|v: String| v@), n_cols as int, 0),
{
    let ghost views = data@.map_values(|v: String| v@);
    let mut widths: Vec<usize> = Vec::new();
    let mut j: usize = 0;
    while j < n_cols
        invariant
            j <= n_cols,
            widths@.len() == j,
            forall|k: int| 0 <= k < j ==> widths@[k] == 0,
        decreases n_cols - j,
    {
        widths.push(0);
        j = j + 1;
    }
    proof {
        assert forall|k: int| 0 <= k < n_cols implies widths@[k] == col_width(
            views.take(0),
            n_cols as int,
            k,
        ) by {
            assert(views.take(0).len() == 0);
        }
    }
    let mut i: usize = 0;
    while i < data.len()
        invariant
            i <= data@.len(),
            views == data@.map_values(|v: String| v@),
            n_cols > 0,
            widths@.len() == n_cols,
            forall|j2: int| 0 <= j2 < data@.len() ==> (#[trigger] data@[j2])@.len() + 2
                <= usize::MAX,
            forall|k: int|
                0 <= k < n_cols ==> widths@[k] == col_width(
                    views.take(i as int),
                    n_cols as int,
                    k,
                ),
        decreases data@.len() - i,
    {
        proof {
            assert(views.take(i + 1).drop_last() =~= views.take(i as int));
            assert(views.take(i + 1).last() == views[i as int]);
        }
        let col = i % n_cols;
        let cell = data[i].as_str().unicode_len() + 2;
        if cell > widths[col] {
            widths.set(col, cell);
        }
        proof {
            assert forall|k: int| 0 <= k < n_cols implies widths@[k] == col_width(
                views.take(i + 1),
                n_cols as int,
                k,
            ) by {}
        }
        i = i + 1;
    }
    proof {
        assert(views.take(views.len() as int) =~= views);
    }

    let mut out = String::new();
    let ghost total = spec_cols(views, n_cols as int, 0);
    let mut i: usize = 0;
    while i < data.len()
        invariant
            i <= data@.len(),
            views == data@.map_values(|v: String| v@),
            n_cols > 0,
            widths@.len() == n_cols,
            forall|k: int| 0 <= k < n_cols ==> widths@[k] == col_width(views, n_cols as int, k),
            out@ + spec_cols(views, n_cols as int, i as int) == spec_cols(
                views,
                n_cols as int,
                0,
            ),
        decreases data@.len() - i,
    {
        proof {
            reveal_strlit("\n");
        }
        let ghost before = out@;
        proof {
            lemma_col_width_ge(views, n_cols as int, i as int);
        }
        let col = i % n_cols;
        out.append(data[i].as_str());
        push_spaces(&mut out, widths[col] - data[i].as_str().unicode_len());
        out.append("  ");
        proof {
            reveal_strlit("  ");
            assert(out@ =~= before + spec_cell(views[i as int], widths@[col as int] as int));
        }
        if (i + 1) % n_cols == 0 {
            out.append("\n");
        }
        proof {
            assert(out@ + spec_cols(views, n_cols as int, i + 1) =~= before + spec_cols(
                views,
                n_cols as int,
                i as int,
            ));
        }
        i = i + 1;
    }
    proof {
        assert(out@ + spec_cols(views, n_cols as int, data@.len() as int) =~= out@);
    }
    out
}

} // verus!
