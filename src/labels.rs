use vstd::prelude::*;

use crate::geometry::BoundingBox;
use crate::text::{
    char_vec, decimal, find_char, lemma_next_index_of, next_index_of, parse_u32, parse_u32_of,
    push_decimal, trim, trim_bounds,
};

verus! {

/// A class label and the colour in which its detections are drawn.
pub struct ColorLabel {
    pub label: String,
    pub red: u32,
    pub green: u32,
    pub blue: u32,
}

/// What a color label holds: its text and its red, green and blue components.
pub type LabelView = (Seq<char>, u32, u32, u32);

impl View for ColorLabel {
    type V = LabelView;

    open spec fn view(&self) -> LabelView {
        (self.label@, self.red, self.green, self.blue)
    }
}

impl ColorLabel {
    /// A copy of this label.
    pub fn duplicate(&self) -> (r: ColorLabel)
        ensures
            r@ == self@,
    {
        ColorLabel { label: self.label.clone(), red: self.red, green: self.green, blue: self.blue }
    }
}

/// Why a labels file was refused. Each variant carries the index of the
/// offending line, counting from zero.
#[derive(Clone, Copy, Debug, PartialEq, Eq, Structural)]
pub enum LabelsError {
    /// The line does not split into exactly four comma-separated fields.
    InvalidLineFormat(usize),
    /// The red field is not an unsigned 32-bit integer.
    InvalidRed(usize),
    /// The green field is not an unsigned 32-bit integer.
    InvalidGreen(usize),
    /// The blue field is not an unsigned 32-bit integer.
    InvalidBlue(usize),
}

/// The label read from line `l`, the line's index being `n`: the line must split at
/// commas into exactly four fields `label,red,green,blue`; each field is trimmed
/// and the three colour components are read as `u32`.
pub open spec fn parse_line_of(l: Seq<char>, n: usize) -> Result<LabelView, LabelsError> {
    let c1 = next_index_of(l, ',', 0);
    let c2 = next_index_of(l, ',', c1 + 1);
    let c3 = next_index_of(l, ',', c2 + 1);
    if c3 >= l.len() || next_index_of(l, ',', c3 + 1) < l.len() {
        Err(LabelsError::InvalidLineFormat(n))
    } else {
        match parse_u32_of(trim(l.subrange(c1 + 1, c2))) {
            None => Err(LabelsError::InvalidRed(n)),
            Some(r) => match parse_u32_of(trim(l.subrange(c2 + 1, c3))) {
                None => Err(LabelsError::InvalidGreen(n)),
                Some(g) => match parse_u32_of(trim(l.subrange(c3 + 1, l.len() as int))) {
                    None => Err(LabelsError::InvalidBlue(n)),
                    Some(b) => Ok((trim(l.subrange(0, c1)), r, g, b)),
                },
            },
        }
    }
}

/// End of the line that starts at `p` and whose terminating newline (or the end
/// of the text) is at `e`: a carriage return before the newline is not part of it.
pub open spec fn line_end(t: Seq<char>, p: int, e: int) -> int {
    if e < t.len() && e > p && t[e - 1] == '\r' {
        e - 1
    } else {
        e
    }
}

/// The labels read from the lines of `t` that start at or after `p`, the first of
/// them having index `n`. Lines end at a newline or at the end of the text, as
/// `BufRead::lines` splits them; the first line that fails decides the error.
pub open spec fn labels_from(t: Seq<char>, p: int, n: usize) -> Result<Seq<LabelView>, LabelsError>
    decreases t.len() + 1 - p,
    via labels_from_decreases
{
    if p < 0 || p >= t.len() {
        Ok(Seq::empty())
    } else {
        let e = next_index_of(t, '\n', p);
        match parse_line_of(t.subrange(p, line_end(t, p, e)), n) {
            Err(x) => Err(x),
            Ok(v) => match labels_from(t, e + 1, (n + 1) as usize) {
                Err(x) => Err(x),
                Ok(rest) => Ok(seq![v] + rest),
            },
        }
    }
}

#[via_fn]
proof fn labels_from_decreases(t: Seq<char>, p: int, n: usize) {
    if 0 <= p < t.len() {
        lemma_next_index_of(t, '\n', p);
    }
}

/// The labels of a labels file with text `t`.
pub open spec fn labels_of(t: Seq<char>) -> Result<Seq<LabelView>, LabelsError> {
    labels_from(t, 0, 0)
}

pub open spec fn prepend(v: Seq<LabelView>, r: Result<Seq<LabelView>, LabelsError>) -> Result<
    Seq<LabelView>,
    LabelsError,
> {
    match r {
        Ok(rest) => Ok(v + rest),
        Err(x) => Err(x),
    }
}

pub open spec fn views(v: Seq<ColorLabel>) -> Seq<LabelView> {
    v.map_values(|c: ColorLabel| c@)
}

proof fn lemma_shifted_index(t: Seq<char>, lo: int, hi: int, c: char, k: int)
    requires
        0 <= lo <= hi <= t.len(),
        0 <= k,
    ensures
        next_index_of(t.subrange(lo, hi), c, k) + lo == next_index_of(t.subrange(0, hi), c, k + lo),
    decreases hi - lo - k,
{
    if k < hi - lo && t.subrange(lo, hi)[k] != c {
        lemma_shifted_index(t, lo, hi, c, k + 1);
    }
}

/// Reads the line `t[lo..hi]`, of index `n`, into a label.
fn parse_line(text: &str, t: &Vec<char>, lo: usize, hi: usize, n: usize) -> (r: Result<ColorLabel, LabelsError>)
    requires
        t@ == text@,
        lo <= hi <= t.len(),
    ensures
        match r {
            Ok(c) => parse_line_of(t@.subrange(lo as int, hi as int), n) == Ok::<LabelView, LabelsError>(c@),
            Err(x) => parse_line_of(t@.subrange(lo as int, hi as int), n) == Err::<LabelView, LabelsError>(x),
        },
{
    let ghost l = t@.subrange(lo as int, hi as int);
    let c1 = find_char(t, ',', lo, hi);
    let c2 = if c1 < hi { find_char(t, ',', c1 + 1, hi) } else { hi };
    let c3 = if c2 < hi { find_char(t, ',', c2 + 1, hi) } else { hi };
    let c4 = if c3 < hi { find_char(t, ',', c3 + 1, hi) } else { hi };
    proof {
        lemma_shifted_index(t@, lo as int, hi as int, ',', 0);
        lemma_next_index_of(l, ',', 0);
        let k1 = next_index_of(l, ',', 0);
        lemma_shifted_index(t@, lo as int, hi as int, ',', k1 + 1);
        lemma_next_index_of(l, ',', k1 + 1);
        let k2 = next_index_of(l, ',', k1 + 1);
        lemma_shifted_index(t@, lo as int, hi as int, ',', k2 + 1);
        lemma_next_index_of(l, ',', k2 + 1);
        let k3 = next_index_of(l, ',', k2 + 1);
        lemma_shifted_index(t@, lo as int, hi as int, ',', k3 + 1);
        lemma_next_index_of(l, ',', k3 + 1);
    }
    if c3 >= hi || c4 < hi {
        return Err(LabelsError::InvalidLineFormat(n));
    }
    let (r0, r1) = trim_bounds(t, c1 + 1, c2);
    let (g0, g1) = trim_bounds(t, c2 + 1, c3);
    let (b0, b1) = trim_bounds(t, c3 + 1, hi);
    let (l0, l1) = trim_bounds(t, lo, c1);
    assert(l.subrange(c1 - lo + 1, c2 - lo) =~= t@.subrange(c1 + 1, c2 as int));
    assert(l.subrange(c2 - lo + 1, c3 - lo) =~= t@.subrange(c2 + 1, c3 as int));
    assert(l.subrange(c3 - lo + 1, l.len() as int) =~= t@.subrange(c3 + 1, hi as int));
    assert(l.subrange(0, c1 - lo) =~= t@.subrange(lo as int, c1 as int));
    let red = match parse_u32(t, r0, r1) {
        Some(v) => v,
        None => {
            return Err(LabelsError::InvalidRed(n));
        },
    };
    let green = match parse_u32(t, g0, g1) {
        Some(v) => v,
        None => {
            return Err(LabelsError::InvalidGreen(n));
        },
    };
    let blue = match parse_u32(t, b0, b1) {
        Some(v) => v,
        None => {
            return Err(LabelsError::InvalidBlue(n));
        },
    };
    let label = String::from_str(text.substring_char(l0, l1));
    Ok(ColorLabel { label, red, green, blue })
}

/// Reads a labels file: one label per line, `label,red,green,blue`, the line's
/// position giving the class id. Fails on the first line that does not read.
pub fn parse_labels(text: &str) -> (r: Result<Vec<ColorLabel>, LabelsError>)
    ensures
        match r {
            Ok(v) => labels_of(text@) == Ok::<Seq<LabelView>, LabelsError>(views(v@)),
            Err(x) => labels_of(text@) == Err::<Seq<LabelView>, LabelsError>(x),
        },
{
    let t = char_vec(text);
    let mut out: Vec<ColorLabel> = Vec::new();
    let mut p: usize = 0;
    let mut n: usize = 0;
    assert(t@.subrange(0, t.len() as int) =~= t@);
    while p < t.len()
        invariant
            t@ == text@,
            p <= t.len(),
            labels_of(t@) == prepend(views(out@), labels_from(t@, p as int, n)),
            n == out.len(),
            n <= p,
        decreases t.len() - p,
    {
        let e = find_char(&t, '\n', p, t.len());
        proof {
            assert(t@.subrange(0, t.len() as int) =~= t@);
            lemma_next_index_of(t@, '\n', p as int);
        }
        let end = if e < t.len() && e > p && t[e - 1] == '\r' { e - 1 } else { e };
        let line = parse_line(text, &t, p, end, n);
        match line {
            Err(x) => {
                assert(labels_from(t@, p as int, n) == Err::<Seq<LabelView>, LabelsError>(x));
                return Err(x);
            },
            Ok(c) => {
                let ghost before = out@;
                out.push(c);
                assert(views(out@) =~= views(before) + seq![c@]);
                let ghost rest = labels_from(t@, e + 1, (n + 1) as usize);
                assert(labels_from(t@, p as int, n) == prepend(seq![c@], rest));
                proof {
                    if rest is Ok {
                        let r = rest->Ok_0;
                        assert(views(before) + (seq![c@] + r) =~= views(out@) + r);
                    }
                }
                if e >= t.len() {
                    p = t.len();
                } else {
                    p = e + 1;
                }
                n = n + 1;
            },
        }
    }
    assert(views(out@) + Seq::empty() =~= views(out@));
    Ok(out)
}

/// A detection joined with its class label and colour.
pub struct BoundingBoxWithLabels {
    pub x1: i64,
    pub y1: i64,
    pub x2: i64,
    pub y2: i64,
    pub class_label: String,
    pub red: u32,
    pub green: u32,
    pub blue: u32,
    pub confidence: i64,
}

impl BoundingBoxWithLabels {
    /// A copy of this detection.
    pub fn duplicate(&self) -> (r: BoundingBoxWithLabels)
        ensures
            r.x1 == self.x1 && r.y1 == self.y1 && r.x2 == self.x2 && r.y2 == self.y2,
            r.class_label@ == self.class_label@,
            r.red == self.red && r.green == self.green && r.blue == self.blue,
            r.confidence == self.confidence,
    {
        BoundingBoxWithLabels {
            x1: self.x1,
            y1: self.y1,
            x2: self.x2,
            y2: self.y2,
            class_label: self.class_label.clone(),
            red: self.red,
            green: self.green,
            blue: self.blue,
            confidence: self.confidence,
        }
    }
}

/// `a` and `b` hold the same detection and label.
pub open spec fn same_labeled(a: BoundingBoxWithLabels, b: BoundingBoxWithLabels) -> bool {
    &&& a.x1 == b.x1 && a.y1 == b.y1 && a.x2 == b.x2 && a.y2 == b.y2
    &&& a.class_label@ == b.class_label@
    &&& a.red == b.red && a.green == b.green && a.blue == b.blue
    &&& a.confidence == b.confidence
}

/// The text given to a class id that no label is loaded for.
pub open spec fn unknown_class_label(id: u32) -> Seq<char> {
    "Unknown class "@ + decimal(id as nat)
}

/// `j` is detection `d` joined against `labels`: the label and colour at position
/// `class_id` when there is one, else `"Unknown class <id>"` in black.
pub open spec fn is_joined(j: BoundingBoxWithLabels, d: BoundingBox, labels: Seq<ColorLabel>) -> bool {
    &&& j.x1 == d.x1
    &&& j.y1 == d.y1
    &&& j.x2 == d.x2
    &&& j.y2 == d.y2
    &&& j.confidence == d.confidence
    &&& if d.class_id < labels.len() {
        let c = labels[d.class_id as int];
        j.class_label@ == c.label@ && j.red == c.red && j.green == c.green && j.blue == c.blue
    } else {
        j.class_label@ == unknown_class_label(d.class_id) && j.red == 0 && j.green == 0 && j.blue
            == 0
    }
}

/// Joins one detection against the labels.
pub fn join_label(d: &BoundingBox, labels: &Vec<ColorLabel>) -> (r: BoundingBoxWithLabels)
    ensures
        is_joined(r, *d, labels@),
{
    if (d.class_id as usize) < labels.len() {
        let c = &labels[d.class_id as usize];
        BoundingBoxWithLabels {
            x1: d.x1,
            y1: d.y1,
            x2: d.x2,
            y2: d.y2,
            class_label: c.label.clone(),
            red: c.red,
            green: c.green,
            blue: c.blue,
            confidence: d.confidence,
        }
    } else {
        let mut class_label = String::from_str("Unknown class ");
        push_decimal(&mut class_label, d.class_id as u64);
        BoundingBoxWithLabels {
            x1: d.x1,
            y1: d.y1,
            x2: d.x2,
            y2: d.y2,
            class_label,
            red: 0,
            green: 0,
            blue: 0,
            confidence: d.confidence,
        }
    }
}

/// Joins each detection, in order, against the labels indexed by class id.
pub fn join_labels(detections: &Vec<BoundingBox>, labels: &Vec<ColorLabel>) -> (r: Vec<BoundingBoxWithLabels>)
    ensures
        r.len() == detections.len(),
        forall|i: int| 0 <= i < r.len() ==> is_joined(#[trigger] r@[i], detections@[i], labels@),
{
    let mut out: Vec<BoundingBoxWithLabels> = Vec::new();
    let mut i: usize = 0;
    while i < detections.len()
        invariant
            i <= detections.len(),
            out.len() == i,
            forall|k: int| 0 <= k < i ==> is_joined(#[trigger] out@[k], detections@[k], labels@),
        decreases detections.len() - i,
    {
        out.push(join_label(&detections[i], labels));
        i = i + 1;
    }
    out
}

} // verus!
