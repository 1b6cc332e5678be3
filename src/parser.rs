//! The section-aware driver: it walks the rows of an export once, switches
//! section on boundary rows, captures headers and binds data rows.
use vstd::prelude::*;
use crate::record::{
    bind_globals, bind_open, bind_turtle, custom_of, custom_upto, globals_of, open_record_of, turtle_of,
    FieldsModel, Globals, GlobalsModel, Link, Patch, Schema, TurtleModel, Turle,
};
use crate::section::{boundary_of, classify, expects_header, Section};
use crate::text::{lines_of, parse_output, unquoted};
use crate::value::{coerced, is_i64_text, read_i64, signed_value};

verus! {

/// The snapshot of a world.
#[derive(Debug)]
pub struct NetLogoWorld {
    pub random_state: Vec<i64>,
    pub globals: Globals,
    pub output: Vec<String>,
    pub turtles: Vec<Turle>,
    pub patches: Vec<Patch>,
    pub links: Vec<Link>,
    /// Plots are not read; this is always empty.
    pub plots: (),
}

pub struct WorldModel {
    pub random_state: Seq<i64>,
    pub globals: GlobalsModel,
    pub output: Seq<Seq<char>>,
    pub turtles: Seq<TurtleModel>,
    pub patches: Seq<FieldsModel>,
    pub links: Seq<FieldsModel>,
}

impl View for NetLogoWorld {
    type V = WorldModel;

    open spec fn view(&self) -> WorldModel {
        WorldModel {
            random_state: self.random_state@,
            globals: self.globals@,
            output: self.output.deep_view(),
            turtles: self.turtles@.map_values(|t: Turle| t@),
            patches: self.patches@.map_values(|p: Patch| p@),
            links: self.links@.map_values(|l: Link| l@),
        }
    }
}

/// What went wrong.
#[derive(Debug, Clone, Copy, PartialEq, Eq, Structural)]
pub enum ErrorKind {
    /// The text could not be split into rows of cells.
    Syntax,
    /// A data row does not fit its section: its width differs from the
    /// header's, or a fixed field is missing or not of its type.
    SchemaMismatch,
}

/// A failed parse: the kind of failure, the section that was active, and the
/// index of the row (counted from zero) where it came.
#[derive(Debug, Clone, Copy, PartialEq, Eq, Structural)]
pub struct ParseError {
    pub kind: ErrorKind,
    pub section: Section,
    pub row: usize,
}

pub open spec fn empty_world() -> WorldModel {
    WorldModel {
        random_state: seq![],
        globals: GlobalsModel {
            min_pxcor: 0,
            max_pxcor: 0,
            min_pycor: 0,
            max_pycor: 0,
            ticks: 0,
            custom: seq![],
        },
        output: seq![],
        turtles: seq![],
        patches: seq![],
        links: seq![],
    }
}

/// The state of a walk over the rows: the active section, its header if
/// one was captured, and the snapshot so far.
pub struct Scan {
    pub section: Section,
    pub header: Option<Seq<Seq<char>>>,
    pub world: WorldModel,
}

pub open spec fn initial_scan() -> Scan {
    Scan { section: Section::Header, header: None, world: empty_world() }
}

/// The random state that a row gives: every cell the text of an `i64`.
pub open spec fn ints_of(r: Seq<Seq<char>>) -> Option<Seq<i64>> {
    if forall|i: int| 0 <= i < r.len() ==> is_i64_text(#[trigger] r[i]) {
        Some(r.map_values(|t: Seq<char>| signed_value(t) as i64))
    } else {
        None
    }
}

/// A data row of the active section added to the snapshot; `None` where
/// the row does not fit.
pub open spec fn take_data(section: Section, h: Seq<Seq<char>>, row: Seq<Seq<char>>, w: WorldModel) -> Option<
    WorldModel,
> {
    match section {
        Section::RandomState => if h.len() == row.len() && ints_of(row) is Some {
            Some(WorldModel { random_state: ints_of(row)->0, ..w })
        } else {
            None
        },
        Section::Globals => match globals_of(h, row) {
            Some(g) => Some(WorldModel { globals: g, ..w }),
            None => None,
        },
        Section::Turtles => match turtle_of(h, row) {
            Some(t) => Some(WorldModel { turtles: w.turtles.push(t), ..w }),
            None => None,
        },
        Section::Patches => match open_record_of(h, row) {
            Some(p) => Some(WorldModel { patches: w.patches.push(p), ..w }),
            None => None,
        },
        Section::Links => match open_record_of(h, row) {
            Some(l) => Some(WorldModel { links: w.links.push(l), ..w }),
            None => None,
        },
        Section::Output => if row.len() >= 1 {
            Some(WorldModel { output: w.output + lines_of(unquoted(row[0])), ..w })
        } else {
            None
        },
        _ => Some(w),
    }
}

/// One row read in state `st`. A boundary row switches section and drops
/// the header; else the first row of a section that expects a header
/// becomes its header; else the row is data. `None` where the data row
/// does not fit.
pub open spec fn step(st: Scan, row: Seq<Seq<char>>) -> Option<Scan> {
    match boundary_of(row) {
        Some(s) => Some(Scan { section: s, header: None, world: st.world }),
        None => if expects_header(st.section) && st.header is None {
            Some(Scan { header: Some(row), ..st })
        } else {
            let h = match st.header {
                Some(h) => h,
                None => seq![],
            };
            match take_data(st.section, h, row, st.world) {
                Some(w) => Some(Scan { world: w, ..st }),
                None => None,
            }
        },
    }
}

/// The state after the first `n` rows, or the index of the row that did not
/// fit and the section it was read in.
pub open spec fn scan_upto(rows: Seq<Seq<Seq<char>>>, n: int) -> Result<Scan, (int, Section)>
    decreases n,
{
    if n <= 0 {
        Ok(initial_scan())
    } else {
        match scan_upto(rows, n - 1) {
            Err(e) => Err(e),
            Ok(st) => match step(st, rows[n - 1]) {
                Some(t) => Ok(t),
                None => Err((n - 1, st.section)),
            },
        }
    }
}

/// The snapshot that a sequence of rows gives, or the first row that does
/// not fit.
pub open spec fn rows_result(rows: Seq<Seq<Seq<char>>>) -> Result<WorldModel, ParseError> {
    match scan_upto(rows, rows.len() as int) {
        Ok(st) => Ok(st.world),
        Err((i, s)) => Err(ParseError { kind: ErrorKind::SchemaMismatch, section: s, row: i as usize }),
    }
}

pub open spec fn result_view(r: Result<NetLogoWorld, ParseError>) -> Result<WorldModel, ParseError> {
    match r {
        Ok(w) => Ok(w@),
        Err(e) => Err(e),
    }
}

fn copy_row(row: &Vec<String>) -> (r: Vec<String>)
    ensures
        r.deep_view() == row.deep_view(),
{
    let mut out: Vec<String> = Vec::new();
    let mut i: usize = 0;
    while i < row.len()
        invariant
            i <= row.len(),
            out.deep_view() == row.deep_view().take(i as int),
        decreases row.len() - i,
    {
        let ghost before = out.deep_view();
        out.push(row[i].clone());
        assert(out.deep_view() =~= before.push(row[i as int]@));
        assert(row.deep_view().take(i + 1) =~= row.deep_view().take(i as int).push(row[i as int]@));
        i = i + 1;
    }
    assert(row.deep_view().take(row.len() as int) =~= row.deep_view());
    out
}


fn read_ints(row: &Vec<String>) -> (r: Option<Vec<i64>>)
    ensures
        r is Some <==> ints_of(row.deep_view()) is Some,
        r is Some ==> r->0@ == ints_of(row.deep_view())->0,
{
    let ghost rv = row.deep_view();
    let mut out: Vec<i64> = Vec::new();
    let mut i: usize = 0;
    while i < row.len()
        invariant
            i <= row.len(),
            rv == row.deep_view(),
            out@.len() == i,
            forall|k: int| 0 <= k < i ==> is_i64_text(#[trigger] rv[k]),
            forall|k: int| 0 <= k < i ==> out@[k] == signed_value(#[trigger] rv[k]) as i64,
        decreases row.len() - i,
    {
        assert(row[i as int]@ == rv[i as int]);
        match read_i64(row[i].as_str()) {
            Some(n) => out.push(n),
            None => return None,
        }
        i = i + 1;
    }
    assert(out@ =~= rv.map_values(|t: Seq<char>| signed_value(t) as i64));
    Some(out)
}

/// A walk over the rows of an export, one row at a time.
pub struct Scanner {
    pub section: Section,
    pub header: Option<Vec<String>>,
    pub world: NetLogoWorld,
}

impl View for Scanner {
    type V = Scan;

    open spec fn view(&self) -> Scan {
        Scan {
            section: self.section,
            header: match self.header {
                Some(h) => Some(h.deep_view()),
                None => None,
            },
            world: self.world@,
        }
    }
}

impl Scanner {
    /// A walk that has read nothing: in the leading section, with no header
    /// and an empty snapshot.
    pub fn new() -> (r: Scanner)
        ensures
            r@ == initial_scan(),
    {
        let world = NetLogoWorld {
            random_state: Vec::new(),
            globals: Globals::default(),
            output: Vec::new(),
            turtles: Vec::new(),
            patches: Vec::new(),
            links: Vec::new(),
            plots: (),
        };
        let r = Scanner { section: Section::Header, header: None, world };
        assert(r@.world.output =~= seq![]);
        assert(r@.world.turtles =~= seq![]);
        assert(r@.world.patches =~= seq![]);
        assert(r@.world.links =~= seq![]);
        r
    }

    /// Reads one row; `false` where it is a data row that does not fit its
    /// section, and then the walk must stop.
    pub fn feed(&mut self, row: &Vec<String>) -> (r: bool)
        ensures
            match step(old(self)@, row.deep_view()) {
                Some(t) => r && final(self)@ == t,
                None => !r,
            },
    {
        if let Some(s) = classify(row) {
            self.section = s;
            self.header = None;
            return true;
        }
        if self.section.has_headers() && self.header.is_none() {
            self.header = Some(copy_row(row));
            return true;
        }
        let empty: Vec<String> = Vec::new();
        let h: &Vec<String> = match &self.header {
            Some(h) => h,
            None => &empty,
        };
        proof {
            if self.header is None {
                assert(h.deep_view() =~= seq![]);
            }
        }
        match self.section {
            Section::RandomState => {
                if h.len() != row.len() {
                    return false;
                }
                match read_ints(row) {
                    Some(v) => {
                        self.world.random_state = v;
                        true
                    },
                    None => false,
                }
            },
            Section::Globals => match bind_globals(h, row) {
                Some(g) => {
                    self.world.globals = g;
                    true
                },
                None => false,
            },
            Section::Turtles => match bind_turtle(h, row) {
                Some(t) => {
                    self.world.turtles.push(t);
                    assert(self.world@.turtles =~= old(self).world@.turtles.push(t@));
                    true
                },
                None => false,
            },
            Section::Patches => match bind_open(h, row) {
                Some(f) => {
                    let p = Patch { custom: f };
                    self.world.patches.push(p);
                    assert(self.world@.patches =~= old(self).world@.patches.push(p@));
                    true
                },
                None => false,
            },
            Section::Links => match bind_open(h, row) {
                Some(f) => {
                    let l = Link { custom: f };
                    self.world.links.push(l);
                    assert(self.world@.links =~= old(self).world@.links.push(l@));
                    true
                },
                None => false,
            },
            Section::Output => {
                if row.len() == 0 {
                    return false;
                }
                assert(row[0]@ == row.deep_view()[0]);
                let mut lines = parse_output(row[0].as_str());
                let ghost added = lines.deep_view();
                self.world.output.append(&mut lines);
                assert(self.world.output.deep_view() =~= old(self).world.output.deep_view() + added);
                true
            },
            _ => true,
        }
    }

    /// The snapshot collected so far.
    pub fn finish(self) -> (r: NetLogoWorld)
        ensures
            r@ == self@.world,
    {
        self.world
    }
}

/// The first row that does not fit ends the walk: no later row changes the
/// outcome, so no snapshot comes back.
pub proof fn lemma_failure_stays(rows: Seq<Seq<Seq<char>>>, n: int, m: int)
    requires
        0 <= n <= m,
        scan_upto(rows, n) is Err,
    ensures
        scan_upto(rows, m) == scan_upto(rows, n),
    decreases m - n,
{
    if n < m {
        lemma_failure_stays(rows, n, m - 1);
    }
}

fn scan_rows(rows: &Vec<Vec<String>>) -> (r: Result<Scanner, ParseError>)
    ensures
        match scan_upto(rows.deep_view(), rows.len() as int) {
            Ok(st) => r is Ok && r->Ok_0@ == st,
            Err((i, s)) => r == Err::<Scanner, ParseError>(
                ParseError { kind: ErrorKind::SchemaMismatch, section: s, row: i as usize },
            ),
        },
{
    let ghost rv = rows.deep_view();
    let mut sc = Scanner::new();
    let mut i: usize = 0;
    while i < rows.len()
        invariant
            i <= rows.len(),
            rv == rows.deep_view(),
            scan_upto(rv, i as int) == Ok::<Scan, (int, Section)>(sc@),
        decreases rows.len() - i,
    {
        assert(rows[i as int].deep_view() == rv[i as int]);
        let section = sc.section;
        if !sc.feed(&rows[i]) {
            proof {
                lemma_failure_stays(rv, i + 1, rv.len() as int);
            }
            return Err(ParseError { kind: ErrorKind::SchemaMismatch, section, row: i });
        }
        i = i + 1;
    }
    Ok(sc)
}

/// Builds the snapshot from rows of cells, in file order.
pub fn parse_rows(rows: &Vec<Vec<String>>) -> (r: Result<NetLogoWorld, ParseError>)
    ensures
        result_view(r) == rows_result(rows.deep_view()),
{
    match scan_rows(rows) {
        Ok(sc) => Ok(sc.finish()),
        Err(e) => Err(e),
    }
}

/// The rows of cells that the CSV reader gives for `text`, up to its first
/// failure, and whether it failed.
pub uninterp spec fn csv_split(text: Seq<char>) -> (Seq<Seq<Seq<char>>>, bool);

/// Relies on `csv::Reader::records` with flexible row widths and no header
/// row: it splits the text into records of cells, unquoting them, and the
/// records depend on the text alone.
#[verifier::external_body]
fn csv_rows(text: &str) -> (r: (Vec<Vec<String>>, bool))
    ensures
        r.0.deep_view() == csv_split(text@).0,
        r.1 == csv_split(text@).1,
{
    let mut reader = csv::ReaderBuilder::new().has_headers(false).flexible(true).from_reader(
        text.as_bytes(),
    );
    let mut rows: Vec<Vec<String>> = Vec::new();
    for record in reader.records() {
        match record {
            Ok(r) => rows.push(r.iter().map(String::from).collect()),
            Err(_) => return (rows, true),
        }
    }
    (rows, false)
}

/// The result of parsing `text`: the rows that the CSV reader gives are
/// walked in order; the first that does not fit is a schema mismatch, and a
/// reader failure after the last good row is a syntax error.
pub open spec fn text_result(text: Seq<char>) -> Result<WorldModel, ParseError> {
    let split = csv_split(text);
    match scan_upto(split.0, split.0.len() as int) {
        Err((i, s)) => Err(ParseError { kind: ErrorKind::SchemaMismatch, section: s, row: i as usize }),
        Ok(st) => if split.1 {
            Err(ParseError { kind: ErrorKind::Syntax, section: st.section, row: split.0.len() as usize })
        } else {
            Ok(st.world)
        },
    }
}

/// Parses a world export held in a string.
pub fn parse_str(data: &str) -> (r: Result<NetLogoWorld, ParseError>)
    ensures
        result_view(r) == text_result(data@),
{
    let (rows, broken) = csv_rows(data);
    match scan_rows(&rows) {
        Err(e) => Err(e),
        Ok(sc) => if broken {
            Err(ParseError { kind: ErrorKind::Syntax, section: sc.section, row: rows.len() })
        } else {
            Ok(sc.finish())
        },
    }
}

/// Parsing is a function of the text: the same text gives the same snapshot,
/// field for field and with custom fields in the same order, or the same
/// error.
pub proof fn lemma_parse_repeatable(a: Seq<char>, b: Seq<char>)
    requires
        a == b,
    ensures
        text_result(a) == text_result(b),
{
}

/// A boundary row switches section and drops the header, whatever the state:
/// the next section's header is captured afresh and its width is never held
/// against an earlier header.
pub proof fn lemma_boundary_resets_header(st: Scan, row: Seq<Seq<char>>)
    requires
        boundary_of(row) is Some,
    ensures
        step(st, row) == Some(
            Scan { section: boundary_of(row)->0, header: None, world: st.world },
        ),
{
}

/// A data row of a section that has a header, whose width differs from the
/// header's, does not fit: the walk stops there.
pub proof fn lemma_width_mismatch_fails(st: Scan, row: Seq<Seq<char>>)
    requires
        boundary_of(row) is None,
        st.header is Some,
        expects_header(st.section),
        row.len() != st.header->0.len(),
    ensures
        step(st, row) is None,
{
}

/// The records of a row keep the header's column order: the fields of a
/// patch or link row are its columns, in order, and the random state is its
/// cells, in order.
pub proof fn lemma_fields_in_column_order(h: Seq<Seq<char>>, r: Seq<Seq<char>>)
    requires
        h.len() == r.len(),
    ensures
        custom_of(Schema::Open, h, r).len() == h.len(),
        forall|j: int|
            0 <= j < h.len() ==> #[trigger] custom_of(Schema::Open, h, r)[j] == (h[j], coerced(r[j])),
        ints_of(r) is Some ==> ints_of(r)->0.len() == r.len() && forall|j: int|
            0 <= j < r.len() ==> #[trigger] ints_of(r)->0[j] == signed_value(r[j]) as i64,
{
    lemma_open_fields_upto(h, r, h.len() as int);
}

proof fn lemma_open_fields_upto(h: Seq<Seq<char>>, r: Seq<Seq<char>>, n: int)
    requires
        0 <= n <= h.len(),
        h.len() == r.len(),
    ensures
        custom_upto(Schema::Open, h, r, n).len() == n,
        forall|j: int|
            0 <= j < n ==> #[trigger] custom_upto(Schema::Open, h, r, n)[j] == (h[j], coerced(r[j])),
    decreases n,
{
    if n > 0 {
        lemma_open_fields_upto(h, r, n - 1);
    }
}

/// The snapshot only grows in file order: whatever turtles, patches, links
/// and output lines the first `n` rows gave stand, in the same order, at the
/// front of what the first `m` rows give.
pub proof fn lemma_rows_keep_order(rows: Seq<Seq<Seq<char>>>, n: int, m: int)
    requires
        0 <= n <= m <= rows.len(),
        scan_upto(rows, m) is Ok,
    ensures
        scan_upto(rows, n) is Ok,
        scan_upto(rows, n)->Ok_0.world.turtles.is_prefix_of(scan_upto(rows, m)->Ok_0.world.turtles),
        scan_upto(rows, n)->Ok_0.world.patches.is_prefix_of(scan_upto(rows, m)->Ok_0.world.patches),
        scan_upto(rows, n)->Ok_0.world.links.is_prefix_of(scan_upto(rows, m)->Ok_0.world.links),
        scan_upto(rows, n)->Ok_0.world.output.is_prefix_of(scan_upto(rows, m)->Ok_0.world.output),
    decreases m - n,
{
    if n < m {
        if scan_upto(rows, m - 1) is Err {
            lemma_failure_stays(rows, m - 1, m);
        }
        lemma_rows_keep_order(rows, n, m - 1);
        let a = scan_upto(rows, m - 1)->Ok_0.world;
        let b = scan_upto(rows, m)->Ok_0.world;
        assert(a.turtles.is_prefix_of(b.turtles));
        assert(a.patches.is_prefix_of(b.patches));
        assert(a.links.is_prefix_of(b.links));
        assert(a.output.is_prefix_of(b.output));
        let c = scan_upto(rows, n)->Ok_0.world;
        assert(c.turtles.is_prefix_of(b.turtles));
        assert(c.patches.is_prefix_of(b.patches));
        assert(c.links.is_prefix_of(b.links));
        assert(c.output.is_prefix_of(b.output));
    } else {
        let c = scan_upto(rows, n)->Ok_0.world;
        assert(c.turtles.is_prefix_of(c.turtles));
        assert(c.patches.is_prefix_of(c.patches));
        assert(c.links.is_prefix_of(c.links));
        assert(c.output.is_prefix_of(c.output));
    }
}

} // verus!
