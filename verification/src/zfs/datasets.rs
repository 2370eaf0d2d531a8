//! Datasets as `zfs list` shows them.
use vstd::prelude::*;
use crate::text::{Sep, split_char, lines, views, chars_of, split_on, is_text, piece_or, piece_or_string, split_lines};

verus! {

pub struct Dataset {
    pub name: String,
    pub used: String,
    pub avail: String,
    pub mountpoint: String,
    /// The value and its source.
    pub compression: (String, String),
    /// The value and its source.
    pub recordsize: (String, String),
    pub compressratio: String,
    pub sharenfs: String,
    pub sharesmb: String,
}

impl Dataset {
    /// Shared over NFS or SMB: one of the two properties is not `off`.
    pub open spec fn shared(self) -> bool {
        self.sharenfs@ != "off"@ || self.sharesmb@ != "off"@
    }

    /// Whether the dataset is shared over NFS or SMB.
    pub fn is_shares(&self) -> (b: bool)
        ensures
            b == self.shared(),
    {
        !is_text(&self.sharenfs, "off") || !is_text(&self.sharesmb, "off")
    }
}

/// The dataset that a tab-separated line of
/// `zfs list -H -o name,used,avail,mountpoint,compression,source:compression,recordsize,source:recordsize,compressratio,sharenfs,sharesmb`
/// describes; a missing column is empty, or `off` for the two share columns.
pub open spec fn dataset_from_line(d: Dataset, line: Seq<char>) -> bool {
    let p = split_char(line, '\t');
    &&& d.name@ == piece_or(p, 0, ""@)
    &&& d.used@ == piece_or(p, 1, ""@)
    &&& d.avail@ == piece_or(p, 2, ""@)
    &&& d.mountpoint@ == piece_or(p, 3, ""@)
    &&& d.compression.0@ == piece_or(p, 4, ""@)
    &&& d.compression.1@ == piece_or(p, 5, ""@)
    &&& d.recordsize.0@ == piece_or(p, 6, ""@)
    &&& d.recordsize.1@ == piece_or(p, 7, ""@)
    &&& d.compressratio@ == piece_or(p, 8, ""@)
    &&& d.sharenfs@ == piece_or(p, 9, "off"@)
    &&& d.sharesmb@ == piece_or(p, 10, "off"@)
}

/// The columns of a dataset, in the order that `zfs list -o` is asked for
/// them: `name,used,avail,mountpoint,compression,source:compression,
/// recordsize,source:recordsize,compressratio,sharenfs,sharesmb`.
pub open spec fn columns_of(d: Dataset) -> Seq<Seq<char>> {
    seq![
        d.name@,
        d.used@,
        d.avail@,
        d.mountpoint@,
        d.compression.0@,
        d.compression.1@,
        d.recordsize.0@,
        d.recordsize.1@,
        d.compressratio@,
        d.sharenfs@,
        d.sharesmb@,
    ]
}

/// A full line of the table is the dataset's columns joined by tabs: its
/// tab-separated pieces are, in order, the dataset's fields; and where the
/// two share columns are missing, the dataset is shared neither way.
pub proof fn lemma_dataset_columns(d: Dataset, line: Seq<char>)
    requires
        dataset_from_line(d, line),
    ensures
        split_char(line, '\t').len() == 11 ==> split_char(line, '\t') == columns_of(d),
        split_char(line, '\t').len() == 10 ==> split_char(line, '\t') == columns_of(d).drop_last()
            && d.sharesmb@ == "off"@,
        split_char(line, '\t').len() < 10 ==> d.sharenfs@ == "off"@ && d.sharesmb@ == "off"@,
{
    let p = split_char(line, '\t');
    if p.len() == 11 {
        assert(p =~= columns_of(d));
    }
    if p.len() == 10 {
        assert(p =~= columns_of(d).drop_last());
    }
}

/// The datasets of `zfs list -H -o ...` output, one per line, in order.
pub fn parse_dataset_list(text: &str) -> (ds: Vec<Dataset>)
    ensures
        ds@.len() == lines(text@).len(),
        forall|k: int| 0 <= k < ds@.len() ==> dataset_from_line(#[trigger] ds@[k], lines(text@)[k]),
        forall|k: int|
            0 <= k < ds@.len() && split_char(lines(text@)[k], '\t').len() == 11
                ==> split_char(lines(text@)[k], '\t') == columns_of(#[trigger] ds@[k]),
{
    let cs = chars_of(text);
    let ls = split_lines(&cs);
    let n = ls.len();
    let mut ds: Vec<Dataset> = Vec::new();
    for k in 0..n
        invariant
            n == ls@.len(),
            views(ls@) == lines(text@),
            ds@.len() == k,
            forall|j: int| 0 <= j < k ==> dataset_from_line(#[trigger] ds@[j], lines(text@)[j]),
    {
        assert(ls@[k as int]@ == lines(text@)[k as int]);
        let p = split_on(&ls[k], Sep::Char('\t'));
        let d = Dataset {
            name: piece_or_string(&p, 0, ""),
            used: piece_or_string(&p, 1, ""),
            avail: piece_or_string(&p, 2, ""),
            mountpoint: piece_or_string(&p, 3, ""),
            compression: (piece_or_string(&p, 4, ""), piece_or_string(&p, 5, "")),
            recordsize: (piece_or_string(&p, 6, ""), piece_or_string(&p, 7, "")),
            compressratio: piece_or_string(&p, 8, ""),
            sharenfs: piece_or_string(&p, 9, "off"),
            sharesmb: piece_or_string(&p, 10, "off"),
        };
        proof {
            lemma_dataset_columns(d, lines(text@)[k as int]);
        }
        ds.push(d);
    }
    ds
}

} // verus!
