//! Records of the snapshot and the binding of a data row to its header.
//!
//! A column whose name is a fixed field of the record is read into that
//! field's type; every other column is kept, in header order, as a custom
//! field whose value type is inferred from its text.
use vstd::prelude::*;
use crate::value::{
    coerce, coerced, digits_value, is_i64_text, is_u64_text, read_i64, read_u64, signed_value,
    unsigned_body, Value, ValueModel,
};
use crate::text::same_text;

verus! {

/// Custom fields as name and value, in column order.
pub type FieldsModel = Seq<(Seq<char>, ValueModel)>;

pub open spec fn fields_view(f: Seq<(String, Value)>) -> FieldsModel {
    f.map_values(|e: (String, Value)| (e.0@, e.1@))
}

/// The record kinds that bind rows, by their fixed fields.
#[derive(Debug, Clone, Copy, PartialEq, Eq, Structural)]
pub enum Schema {
    /// `min-pxcor`, `max-pxcor`, `min-pycor`, `max-pycor`, `ticks`.
    Globals,
    /// `who`, `color`, `xcor`, `ycor`.
    Turtle,
    /// No fixed fields: patches and links.
    Open,
}

pub open spec fn is_fixed_field(k: Schema, name: Seq<char>) -> bool {
    match k {
        Schema::Globals => name == "min-pxcor"@ || name == "max-pxcor"@ || name == "min-pycor"@
            || name == "max-pycor"@ || name == "ticks"@,
        Schema::Turtle => name == "who"@ || name == "color"@ || name == "xcor"@ || name == "ycor"@,
        Schema::Open => false,
    }
}

fn is_fixed(k: Schema, name: &str) -> (r: bool)
    ensures
        r == is_fixed_field(k, name@),
{
    match k {
        Schema::Globals => same_text(name, "min-pxcor") || same_text(name, "max-pxcor")
            || same_text(name, "min-pycor") || same_text(name, "max-pycor") || same_text(
            name,
            "ticks",
        ),
        Schema::Turtle => same_text(name, "who") || same_text(name, "color") || same_text(
            name,
            "xcor",
        ) || same_text(name, "ycor"),
        Schema::Open => false,
    }
}

/// The custom fields among the first `n` columns.
pub open spec fn custom_upto(
    k: Schema,
    h: Seq<Seq<char>>,
    r: Seq<Seq<char>>,
    n: int,
) -> FieldsModel
    decreases n,
{
    if n <= 0 {
        seq![]
    } else {
        let p = custom_upto(k, h, r, n - 1);
        if is_fixed_field(k, h[n - 1]) {
            p
        } else {
            p.push((h[n - 1], coerced(r[n - 1])))
        }
    }
}

/// The custom fields of row `r` under header `h`, in header order.
pub open spec fn custom_of(k: Schema, h: Seq<Seq<char>>, r: Seq<Seq<char>>) -> FieldsModel {
    custom_upto(k, h, r, h.len() as int)
}

/// Collects the columns of `row` that are not fixed fields of `k`.
pub fn custom_fields(k: Schema, header: &Vec<String>, row: &Vec<String>) -> (r: Vec<
    (String, Value),
>)
    requires
        header.len() <= row.len(),
    ensures
        fields_view(r@) == custom_of(k, header.deep_view(), row.deep_view()),
{
    let ghost h = header.deep_view();
    let ghost rv = row.deep_view();
    let mut out: Vec<(String, Value)> = Vec::new();
    let mut i: usize = 0;
    while i < header.len()
        invariant
            i <= header.len() <= row.len(),
            h == header.deep_view(),
            rv == row.deep_view(),
            fields_view(out@) == custom_upto(k, h, rv, i as int),
        decreases header.len() - i,
    {
        let name = header[i].as_str();
        assert(name@ == h[i as int]);
        if !is_fixed(k, name) {
            let v = coerce(row[i].as_str());
            assert(row[i as int]@ == rv[i as int]);
            let ghost before = out@;
            out.push((header[i].clone(), v));
            assert(fields_view(out@) =~= fields_view(before).push((h[i as int], coerced(rv[i as int]))));
        }
        i = i + 1;
    }
    out
}

/// The first column from `i` on that is named `name`.
pub open spec fn column_from(h: Seq<Seq<char>>, name: Seq<char>, i: int) -> Option<int>
    decreases h.len() - i,
{
    if i < 0 || i >= h.len() {
        None
    } else if h[i] == name {
        Some(i)
    } else {
        column_from(h, name, i + 1)
    }
}

/// The text of the first column of `r` named `name` under header `h`.
pub open spec fn cell_named(h: Seq<Seq<char>>, r: Seq<Seq<char>>, name: Seq<char>) -> Option<
    Seq<char>,
> {
    match column_from(h, name, 0) {
        Some(j) => Some(r[j]),
        None => None,
    }
}

/// A fixed signed field: present and the text of an `i64`.
pub open spec fn signed_field(h: Seq<Seq<char>>, r: Seq<Seq<char>>, name: Seq<char>) -> Option<
    i64,
> {
    match cell_named(h, r, name) {
        Some(t) => if is_i64_text(t) {
            Some(signed_value(t) as i64)
        } else {
            None
        },
        None => None,
    }
}

/// A fixed unsigned field: present and the text of an unsigned integer that
/// fits in `usize`.
pub open spec fn unsigned_field(h: Seq<Seq<char>>, r: Seq<Seq<char>>, name: Seq<char>) -> Option<
    usize,
> {
    match cell_named(h, r, name) {
        Some(t) => if is_u64_text(t) && digits_value(unsigned_body(t)) <= usize::MAX {
            Some(digits_value(unsigned_body(t)) as usize)
        } else {
            None
        },
        None => None,
    }
}

fn find_column(header: &Vec<String>, name: &str) -> (r: Option<usize>)
    ensures
        match r {
            Some(j) => column_from(header.deep_view(), name@, 0) == Some(j as int),
            None => column_from(header.deep_view(), name@, 0) is None,
        },
        r is Some ==> r->0 < header.len(),
{
    let ghost h = header.deep_view();
    let mut i: usize = 0;
    while i < header.len()
        invariant
            i <= header.len(),
            h == header.deep_view(),
            column_from(h, name@, 0) == column_from(h, name@, i as int),
        decreases header.len() - i,
    {
        assert(header[i as int]@ == h[i as int]);
        if same_text(header[i].as_str(), name) {
            return Some(i);
        }
        i = i + 1;
    }
    None
}

fn read_cell<'a>(header: &Vec<String>, row: &'a Vec<String>, name: &str) -> (r: Option<&'a str>)
    requires
        header.len() == row.len(),
    ensures
        match r {
            Some(t) => cell_named(header.deep_view(), row.deep_view(), name@) == Some(t@),
            None => cell_named(header.deep_view(), row.deep_view(), name@) is None,
        },
{
    match find_column(header, name) {
        Some(j) => {
            assert(row[j as int]@ == row.deep_view()[j as int]);
            Some(row[j].as_str())
        },
        None => None,
    }
}

fn read_signed(header: &Vec<String>, row: &Vec<String>, name: &str) -> (r: Option<i64>)
    requires
        header.len() == row.len(),
    ensures
        r == signed_field(header.deep_view(), row.deep_view(), name@),
{
    match read_cell(header, row, name) {
        Some(t) => read_i64(t),
        None => None,
    }
}

fn read_unsigned(header: &Vec<String>, row: &Vec<String>, name: &str) -> (r: Option<usize>)
    requires
        header.len() == row.len(),
    ensures
        r == unsigned_field(header.deep_view(), row.deep_view(), name@),
{
    match read_cell(header, row, name) {
        Some(t) => match read_u64(t) {
            Some(n) => if n <= usize::MAX as u64 {
                Some(n as usize)
            } else {
                None
            },
            None => None,
        },
        None => None,
    }
}


/// The world's global variables: its extent, the tick count and any other
/// global as a custom field.
#[derive(Debug, Clone)]
pub struct Globals {
    pub min_pxcor: i64,
    pub max_pxcor: i64,
    pub min_pycor: i64,
    pub max_pycor: i64,
    pub ticks: usize,
    pub custom: Vec<(String, Value)>,
}

pub struct GlobalsModel {
    pub min_pxcor: i64,
    pub max_pxcor: i64,
    pub min_pycor: i64,
    pub max_pycor: i64,
    pub ticks: usize,
    pub custom: FieldsModel,
}

impl View for Globals {
    type V = GlobalsModel;

    open spec fn view(&self) -> GlobalsModel {
        GlobalsModel {
            min_pxcor: self.min_pxcor,
            max_pxcor: self.max_pxcor,
            min_pycor: self.min_pycor,
            max_pycor: self.max_pycor,
            ticks: self.ticks,
            custom: fields_view(self.custom@),
        }
    }
}

/// The last value stored under `key`.
pub open spec fn lookup(f: FieldsModel, key: Seq<char>) -> Option<ValueModel>
    decreases f.len(),
{
    if f.len() == 0 {
        None
    } else if f.last().0 == key {
        Some(f.last().1)
    } else {
        lookup(f.drop_last(), key)
    }
}

impl Default for Globals {
    fn default() -> (r: Globals)
        ensures
            r@ == (GlobalsModel {
                min_pxcor: 0,
                max_pxcor: 0,
                min_pycor: 0,
                max_pycor: 0,
                ticks: 0,
                custom: seq![],
            }),
    {
        let g = Globals {
            min_pxcor: 0,
            max_pxcor: 0,
            min_pycor: 0,
            max_pycor: 0,
            ticks: 0,
            custom: Vec::new(),
        };
        assert(fields_view(g.custom@) =~= seq![]);
        g
    }
}

impl Globals {
    /// The custom field `key`, if there is one; where a name repeats, the
    /// last column wins.
    pub fn get(&self, key: &str) -> (r: Option<&Value>)
        ensures
            match r {
                Some(v) => lookup(self@.custom, key@) == Some(v@),
                None => lookup(self@.custom, key@) is None,
            },
    {
        let mut i: usize = self.custom.len();
        assert(self.custom@.take(i as int) =~= self.custom@);
        while i > 0
            invariant
                i <= self.custom.len(),
                lookup(self@.custom, key@) == lookup(fields_view(self.custom@.take(i as int)), key@),
            decreases i,
        {
            let ghost f = fields_view(self.custom@.take(i as int));
            assert(f.drop_last() =~= fields_view(self.custom@.take(i - 1)));
            assert(f.last() == (self.custom@[i - 1].0@, self.custom@[i - 1].1@));
            if same_text(self.custom[i - 1].0.as_str(), key) {
                return Some(&self.custom[i - 1].1);
            }
            i = i - 1;
        }
        None
    }
}

/// One turtle: its id, colour, position and any other variable.
#[derive(Debug, Clone)]
pub struct Turle {
    pub who: usize,
    pub color: usize,
    pub xcor: i64,
    pub ycor: i64,
    pub custom: Vec<(String, Value)>,
}

pub struct TurtleModel {
    pub who: usize,
    pub color: usize,
    pub xcor: i64,
    pub ycor: i64,
    pub custom: FieldsModel,
}

impl View for Turle {
    type V = TurtleModel;

    open spec fn view(&self) -> TurtleModel {
        TurtleModel {
            who: self.who,
            color: self.color,
            xcor: self.xcor,
            ycor: self.ycor,
            custom: fields_view(self.custom@),
        }
    }
}

/// One patch: every column is a custom field.
#[derive(Debug, Clone)]
pub struct Patch {
    pub custom: Vec<(String, Value)>,
}

impl View for Patch {
    type V = FieldsModel;

    open spec fn view(&self) -> FieldsModel {
        fields_view(self.custom@)
    }
}

/// One link: every column is a custom field.
#[derive(Debug, Clone)]
pub struct Link {
    pub custom: Vec<(String, Value)>,
}

impl View for Link {
    type V = FieldsModel;

    open spec fn view(&self) -> FieldsModel {
        fields_view(self.custom@)
    }
}

/// The globals that row `r` gives under header `h`: `None` where the row's
/// width differs from the header's or a fixed field is missing or unreadable.
pub open spec fn globals_of(h: Seq<Seq<char>>, r: Seq<Seq<char>>) -> Option<GlobalsModel> {
    let a = signed_field(h, r, "min-pxcor"@);
    let b = signed_field(h, r, "max-pxcor"@);
    let c = signed_field(h, r, "min-pycor"@);
    let d = signed_field(h, r, "max-pycor"@);
    let t = unsigned_field(h, r, "ticks"@);
    if h.len() == r.len() && a is Some && b is Some && c is Some && d is Some && t is Some {
        Some(
            GlobalsModel {
                min_pxcor: a->0,
                max_pxcor: b->0,
                min_pycor: c->0,
                max_pycor: d->0,
                ticks: t->0,
                custom: custom_of(Schema::Globals, h, r),
            },
        )
    } else {
        None
    }
}

/// The turtle that row `r` gives under header `h`, as for `globals_of`.
pub open spec fn turtle_of(h: Seq<Seq<char>>, r: Seq<Seq<char>>) -> Option<TurtleModel> {
    let w = unsigned_field(h, r, "who"@);
    let c = unsigned_field(h, r, "color"@);
    let x = signed_field(h, r, "xcor"@);
    let y = signed_field(h, r, "ycor"@);
    if h.len() == r.len() && w is Some && c is Some && x is Some && y is Some {
        Some(
            TurtleModel {
                who: w->0,
                color: c->0,
                xcor: x->0,
                ycor: y->0,
                custom: custom_of(Schema::Turtle, h, r),
            },
        )
    } else {
        None
    }
}

/// The fields of a patch or link row: `None` where its width differs from
/// the header's.
pub open spec fn open_record_of(h: Seq<Seq<char>>, r: Seq<Seq<char>>) -> Option<FieldsModel> {
    if h.len() == r.len() {
        Some(custom_of(Schema::Open, h, r))
    } else {
        None
    }
}

/// Binds a globals row to its header.
pub fn bind_globals(header: &Vec<String>, row: &Vec<String>) -> (r: Option<Globals>)
    ensures
        match r {
            Some(g) => globals_of(header.deep_view(), row.deep_view()) == Some(g@),
            None => globals_of(header.deep_view(), row.deep_view()) is None,
        },
{
    if header.len() != row.len() {
        return None;
    }
    let a = read_signed(header, row, "min-pxcor");
    let b = read_signed(header, row, "max-pxcor");
    let c = read_signed(header, row, "min-pycor");
    let d = read_signed(header, row, "max-pycor");
    let t = read_unsigned(header, row, "ticks");
    match (a, b, c, d, t) {
        (Some(a), Some(b), Some(c), Some(d), Some(t)) => Some(
            Globals {
                min_pxcor: a,
                max_pxcor: b,
                min_pycor: c,
                max_pycor: d,
                ticks: t,
                custom: custom_fields(Schema::Globals, header, row),
            },
        ),
        _ => None,
    }
}

/// Binds a turtle row to its header.
pub fn bind_turtle(header: &Vec<String>, row: &Vec<String>) -> (r: Option<Turle>)
    ensures
        match r {
            Some(t) => turtle_of(header.deep_view(), row.deep_view()) == Some(t@),
            None => turtle_of(header.deep_view(), row.deep_view()) is None,
        },
{
    if header.len() != row.len() {
        return None;
    }
    let w = read_unsigned(header, row, "who");
    let c = read_unsigned(header, row, "color");
    let x = read_signed(header, row, "xcor");
    let y = read_signed(header, row, "ycor");
    match (w, c, x, y) {
        (Some(w), Some(c), Some(x), Some(y)) => Some(
            Turle { who: w, color: c, xcor: x, ycor: y, custom: custom_fields(Schema::Turtle, header, row) },
        ),
        _ => None,
    }
}

/// Binds a patch or link row to its header.
pub fn bind_open(header: &Vec<String>, row: &Vec<String>) -> (r: Option<Vec<(String, Value)>>)
    ensures
        match r {
            Some(f) => open_record_of(header.deep_view(), row.deep_view()) == Some(fields_view(f@)),
            None => open_record_of(header.deep_view(), row.deep_view()) is None,
        },
{
    if header.len() != row.len() {
        return None;
    }
    Some(custom_fields(Schema::Open, header, row))
}

} // verus!
