use vstd::prelude::*;
use crate::center_star::{center_star_valid, star_from_cells, CenterStar, CenterStarView};
use crate::find::string_views;
use crate::moon::{moon_from_cells, moon_valid, Moon, MoonView};
use crate::planet::{planet_from_cells, planet_valid, Planet, PlanetView};
use crate::planet_system::{planet_system_valid, PlanetSystem, PlanetSystemView};
use crate::number::{
    decimal_zero, parse_decimal_spec, parse_u32, parse_u32_spec, Decimal, DecimalView,
};
use crate::number::{nat_text, write_nat};
use crate::text::{chars_of, push_char};

verus! {

/// The cells of a line split at every `,` (a line without one is one cell).
pub open spec fn split_spec(s: Seq<char>) -> Seq<Seq<char>>
    decreases s.len(),
{
    if s.len() == 0 {
        seq![Seq::<char>::empty()]
    } else {
        let p = split_spec(s.drop_last());
        if s.last() == ',' {
            p.push(Seq::<char>::empty())
        } else {
            p.update(p.len() - 1, p.last().push(s.last()))
        }
    }
}

pub proof fn lemma_split_len(s: Seq<char>)
    ensures
        split_spec(s).len() >= 1,
    decreases s.len(),
{
    if s.len() > 0 {
        lemma_split_len(s.drop_last());
    }
}

/// A numeric cell's value; a cell that is not a decimal counts as zero.
pub open spec fn decimal_cell(c: Seq<char>) -> DecimalView {
    match parse_decimal_spec(c) {
        Some(d) => d,
        None => decimal_zero(),
    }
}

/// An integer cell's value; a cell that is not one counts as zero.
pub open spec fn u32_cell(c: Seq<char>) -> u32 {
    match parse_u32_spec(c) {
        Some(n) => n,
        None => 0,
    }
}

/// Splits a line into its comma-separated cells.
pub fn split_cells(line: &str) -> (r: Vec<String>)
    ensures
        string_views(r@) == split_spec(line@),
        r@.len() >= 1,
{
    let n = line.unicode_len();
    let mut cells: Vec<String> = Vec::new();
    let mut cur = String::new();
    let mut i: usize = 0;
    assert(line@.subrange(0, 0) =~= Seq::<char>::empty());
    while i < n
        invariant
            n == line@.len(),
            i <= n,
            string_views(cells@).push(cur@) == split_spec(line@.subrange(0, i as int)),
        decreases n - i,
    {
        let c = line.get_char(i);
        let ghost pre = line@.subrange(0, i as int);
        let ghost next = line@.subrange(0, i + 1);
        assert(next.drop_last() =~= pre);
        assert(next.last() == c);
        proof {
            lemma_split_len(pre);
        }
        if c == ',' {
            let done = cur;
            cells.push(done);
            cur = String::new();
            assert(string_views(cells@).push(cur@) =~= split_spec(pre).push(Seq::<char>::empty()));
        } else {
            push_char(&mut cur, c);
            assert(string_views(cells@).push(cur@) =~= split_spec(pre).update(
                split_spec(pre).len() - 1,
                split_spec(pre).last().push(c),
            ));
        }
        i = i + 1;
    }
    assert(line@.subrange(0, n as int) =~= line@);
    cells.push(cur);
    assert(string_views(cells@).len() == cells@.len());
    cells
}

/// A numeric cell's value, zero when the cell is not a decimal.
pub fn decimal_or_zero(c: &str) -> (r: Decimal)
    ensures
        r@ == decimal_cell(c@),
        r.wf(),
{
    match Decimal::parse(c) {
        Some(d) => d,
        None => Decimal::zero(),
    }
}

/// An integer cell's value, zero when the cell is not an unsigned integer.
pub fn u32_or_zero(c: &str) -> (r: u32)
    ensures
        r == u32_cell(c@),
{
    match parse_u32(c) {
        Some(n) => n,
        None => 0,
    }
}

/// Number of cells in a row of a single-system table.
pub const SYSTEM_ROW_CELLS: usize = 9;

/// Whether `s` holds exactly the text `lit`.
fn text_is(s: &String, lit: &str) -> (r: bool)
    ensures
        r == (s@ == lit@),
{
    let t = String::from_str(lit);
    *s == t
}

/// One row of a single-system table: the star, a planet with the name of
/// the body it orbits, or a moon with the name of its planet.
#[derive(Debug, Clone)]
pub enum Types {
    CenterStar(CenterStar),
    Planet(Planet, String),
    Moon(Moon, String),
}

/// Whether the kind cell names a known kind of body.
pub open spec fn known_kind(k: Seq<char>) -> bool {
    k == "sun"@ || k == "planet"@ || k == "moon"@
}

impl Types {
    /// The body of a nine-cell row: cell 7 holds its kind (`sun`, `planet`
    /// or `moon`), cell 6 the body it orbits. `None` for another kind.
    pub fn from_cells(cells: &Vec<String>) -> (r: Option<Types>)
        requires
            cells@.len() >= 9,
        ensures
            r is None <==> !known_kind(cells@[7]@),
            r matches Some(Types::CenterStar(st)) ==> cells@[7]@ == "sun"@ && st@ == star_from_cells(
                string_views(cells@),
                0,
                1,
                2,
                8,
            ) && center_star_valid(st@),
            r matches Some(Types::Planet(p, c)) ==> cells@[7]@ == "planet"@ && p@ == planet_from_cells(
                string_views(cells@),
                0,
            ) && c@ == cells@[6]@ && planet_valid(p@),
            r matches Some(Types::Moon(m, c)) ==> cells@[7]@ == "moon"@ && m@ == moon_from_cells(
                string_views(cells@),
            ) && c@ == cells@[6]@ && moon_valid(m@),
    {
        if text_is(&cells[7], "sun") {
            Some(Types::CenterStar(CenterStar::from_cells(cells)))
        } else if text_is(&cells[7], "planet") {
            Some(Types::Planet(Planet::from_cells(cells), cells[6].clone()))
        } else if text_is(&cells[7], "moon") {
            Some(Types::Moon(Moon::from_cells(cells), cells[6].clone()))
        } else {
            None
        }
    }
}

/// Why a table could not be read. Lines are counted from zero, the header
/// being line zero.
#[derive(Debug, Clone, PartialEq, Eq)]
pub enum LoadError {
    WrongColumnCount { line: usize, found: usize },
    UnknownKind { line: usize, kind: String },
}

impl LoadError {
    /// A one-line description for the user.
    pub fn message(&self) -> (r: String)
        ensures
            r@ == match self {
                LoadError::WrongColumnCount { line, found } => "Line "@ + nat_text(*line as nat)
                    + ": wrong number of cells: "@ + nat_text(*found as nat),
                LoadError::UnknownKind { line, kind } => "Line "@ + nat_text(*line as nat)
                    + ": unknown kind of body: "@ + kind@,
            },
    {
        let mut r = String::from_str("Line ");
        match self {
            LoadError::WrongColumnCount { line, found } => {
                write_nat(&mut r, *line as u64);
                r.append(": wrong number of cells: ");
                write_nat(&mut r, *found as u64);
            },
            LoadError::UnknownKind { line, kind } => {
                write_nat(&mut r, *line as u64);
                r.append(": unknown kind of body: ");
                r.append(kind.as_str());
            },
        }
        r
    }
}

/// Whether line `i` of a table is a data row: not the header, not blank.
pub open spec fn is_row(lines: Seq<Seq<char>>, i: int) -> bool {
    1 <= i < lines.len() && lines[i].len() > 0
}

/// Whether a row of a single-system table cannot be read.
pub open spec fn system_row_refused(line: Seq<char>) -> bool {
    let cells = split_spec(line);
    cells.len() != SYSTEM_ROW_CELLS || !known_kind(cells[7])
}

/// The first of the first `n` lines that is a row and cannot be read.
pub open spec fn first_refused(lines: Seq<Seq<char>>, n: int) -> Option<int>
    decreases n,
{
    if n <= 0 {
        None
    } else {
        match first_refused(lines, n - 1) {
            Some(i) => Some(i),
            None => if is_row(lines, n - 1) && system_row_refused(lines[n - 1]) {
                Some(n - 1)
            } else {
                None
            },
        }
    }
}

/// What the rows among the first lines of a single-system table give: the
/// last star, the planets in order, and the moons in order with the names of
/// their planets.
pub ghost struct SystemScan {
    pub star: CenterStarView,
    pub planets: Seq<PlanetView>,
    pub moons: Seq<(Seq<char>, MoonView)>,
}

/// A star with an empty name and every quantity zero.
pub open spec fn blank_star() -> CenterStarView {
    CenterStarView {
        name: Seq::empty(),
        mass: decimal_zero(),
        radius: decimal_zero(),
        effective_temperature: decimal_zero(),
    }
}

/// The bodies that the rows among the first `n` lines describe.
pub open spec fn scan_rows(lines: Seq<Seq<char>>, n: int) -> SystemScan
    decreases n,
{
    if n <= 0 {
        SystemScan { star: blank_star(), planets: Seq::empty(), moons: Seq::empty() }
    } else {
        let prev = scan_rows(lines, n - 1);
        let cells = split_spec(lines[n - 1]);
        if !is_row(lines, n - 1) {
            prev
        } else if cells[7] == "sun"@ {
            SystemScan { star: star_from_cells(cells, 0, 1, 2, 8), ..prev }
        } else if cells[7] == "planet"@ {
            SystemScan { planets: prev.planets.push(planet_from_cells(cells, 0)), ..prev }
        } else {
            SystemScan { moons: prev.moons.push((cells[6], moon_from_cells(cells))), ..prev }
        }
    }
}

/// The moons, in order, whose planet has the name `parent`.
pub open spec fn moons_of(moons: Seq<(Seq<char>, MoonView)>, parent: Seq<char>) -> Seq<MoonView>
    decreases moons.len(),
{
    if moons.len() == 0 {
        Seq::empty()
    } else {
        let rest = moons_of(moons.drop_last(), parent);
        if moons.last().0 == parent {
            rest.push(moons.last().1)
        } else {
            rest
        }
    }
}

/// The system named `name` with the bodies of a scan, each planet with its moons.
pub open spec fn assemble(name: Seq<char>, scan: SystemScan) -> PlanetSystemView {
    PlanetSystemView {
        name,
        center_star: scan.star,
        planets: scan.planets.map_values(
            |p: PlanetView| PlanetView { moons: moons_of(scan.moons, p.name), ..p },
        ),
    }
}

/// `r` is the error that line `i`, holding `text`, gives.
pub open spec fn is_load_error_at<T>(r: Result<T, LoadError>, i: int, text: Seq<char>) -> bool {
    let cells = split_spec(text);
    if cells.len() != SYSTEM_ROW_CELLS {
        r matches Err(LoadError::WrongColumnCount { line, found }) && line == i && found
            == cells.len()
    } else {
        r matches Err(LoadError::UnknownKind { line, kind }) && line == i && kind@ == cells[7]
    }
}

pub proof fn lemma_first_refused_stays(lines: Seq<Seq<char>>, i: int, n: int)
    requires
        first_refused(lines, i + 1) == Some(i),
        i + 1 <= n,
    ensures
        first_refused(lines, n) == Some(i),
    decreases n - i,
{
    if n > i + 1 {
        lemma_first_refused_stays(lines, i, n - 1);
    }
}

/// The moons of `moons` whose planet is named `parent`, as copies.
fn moons_for(moons: &Vec<(String, Moon)>, parent: &String) -> (r: Vec<Moon>)
    ensures
        r@.map_values(|m: Moon| m@) == moons_of(
            moons@.map_values(|e: (String, Moon)| (e.0@, e.1@)),
            parent@,
        ),
{
    let ghost all = moons@.map_values(|e: (String, Moon)| (e.0@, e.1@));
    let mut r: Vec<Moon> = Vec::new();
    let mut j: usize = 0;
    assert(all.subrange(0, 0) =~= Seq::<(Seq<char>, MoonView)>::empty());
    while j < moons.len()
        invariant
            j <= moons@.len(),
            all == moons@.map_values(|e: (String, Moon)| (e.0@, e.1@)),
            r@.map_values(|m: Moon| m@) == moons_of(all.subrange(0, j as int), parent@),
        decreases moons@.len() - j,
    {
        let ghost pre = all.subrange(0, j as int);
        let ghost next = all.subrange(0, j + 1);
        assert(next.drop_last() =~= pre);
        assert(next.last() == all[j as int]);
        let ghost before = r@;
        if moons[j].0 == *parent {
            r.push(moons[j].1.duplicate());
            assert(r@.map_values(|m: Moon| m@) =~= before.map_values(|m: Moon| m@).push(all[j as int].1));
        } else {
        }
        j = j + 1;
    }
    assert(all.subrange(0, j as int) =~= all);
    r
}

/// The planets with their moons attached, as `assemble` lists them.
pub open spec fn with_moons(planets: Seq<PlanetView>, moons: Seq<(Seq<char>, MoonView)>) -> Seq<
    PlanetView,
> {
    planets.map_values(|p: PlanetView| PlanetView { moons: moons_of(moons, p.name), ..p })
}

/// Gives each planet, in order, the moons that name it as their planet.
fn attach_moons(planets: Vec<Planet>, moons: &Vec<(String, Moon)>) -> (r: Vec<Planet>)
    requires
        forall|k: int| 0 <= k < planets@.len() ==> planet_valid(#[trigger] planets@[k]@),
        forall|j: int| 0 <= j < moons@.len() ==> moon_valid(#[trigger] moons@[j].1@),
    ensures
        r@.map_values(|p: Planet| p@) == with_moons(
            planets@.map_values(|p: Planet| p@),
            moons@.map_values(|e: (String, Moon)| (e.0@, e.1@)),
        ),
        forall|k: int| 0 <= k < r@.len() ==> planet_valid(#[trigger] r@[k]@),
{
    let ghost mv = moons@.map_values(|e: (String, Moon)| (e.0@, e.1@));
    let ghost orig = planets@.map_values(|p: Planet| p@);
    let ghost want = with_moons(orig, mv);
    let mut rest = planets;
    let mut out: Vec<Planet> = Vec::new();
    while rest.len() > 0
        invariant
            out@.len() + rest@.len() == orig.len(),
            mv == moons@.map_values(|e: (String, Moon)| (e.0@, e.1@)),
            forall|j: int| 0 <= j < moons@.len() ==> moon_valid(#[trigger] moons@[j].1@),
            rest@.map_values(|p: Planet| p@) == orig.subrange(out@.len() as int, orig.len() as int),
            out@.map_values(|p: Planet| p@) == want.subrange(0, out@.len() as int),
            want == with_moons(orig, mv),
            forall|k: int| 0 <= k < rest@.len() ==> planet_valid(#[trigger] rest@[k]@),
            forall|k: int| 0 <= k < out@.len() ==> planet_valid(#[trigger] out@[k]@),
        decreases rest@.len(),
    {
        let ghost k = out@.len() as int;
        let ghost rest0 = rest@;
        let ghost out0 = out@;
        let mut p = rest.remove(0);
        assert(p@ == rest0[0]@);
        assert(rest0.map_values(|p: Planet| p@)[0] == rest0[0]@);
        assert(orig.subrange(k, orig.len() as int)[0] == orig[k]);
        assert(p@ == orig[k]);
        let found = moons_for(moons, &p.name);
        p.moons = found;
        proof {
            assert forall|j: int| 0 <= j < p.moons@.len() implies moon_valid(#[trigger] p.moons@[j]@) by {
                lemma_moons_of_valid(mv, orig[k].name, j);
                assert(p.moons@[j]@ == p.moons@.map_values(|m: Moon| m@)[j]);
            }
        }
        out.push(p);
        assert(rest@.map_values(|p: Planet| p@) =~= orig.subrange(k + 1, orig.len() as int)) by {
            assert(rest@ =~= rest0.subrange(1, rest0.len() as int));
            assert forall|i: int| 0 <= i < rest@.len() implies #[trigger] rest@[i]@ == orig[k + 1 + i] by {
                assert(rest@[i] == rest0[i + 1]);
                assert(rest0.map_values(|p: Planet| p@)[i + 1] == rest0[i + 1]@);
                assert(orig.subrange(k, orig.len() as int)[i + 1] == orig[k + 1 + i]);
            }
        }
        assert(want[k] == p@);
        assert(out@.map_values(|p: Planet| p@) =~= want.subrange(0, k + 1)) by {
            assert(out@ =~= out0.push(p));
        }
    }
    assert(want.subrange(0, orig.len() as int) =~= want);
    out
}

/// The moons that `moons_of` picks are among the listed ones, so they are
/// valid when every listed moon is.
pub proof fn lemma_moons_of_valid(moons: Seq<(Seq<char>, MoonView)>, parent: Seq<char>, j: int)
    requires
        forall|i: int| 0 <= i < moons.len() ==> moon_valid(#[trigger] moons[i].1),
        0 <= j < moons_of(moons, parent).len(),
    ensures
        moon_valid(moons_of(moons, parent)[j]),
    decreases moons.len(),
{
    if moons.len() > 0 {
        let rest = moons.drop_last();
        assert forall|i: int| 0 <= i < rest.len() implies moon_valid(#[trigger] rest[i].1) by {
            assert(rest[i] == moons[i]);
        }
        if j < moons_of(rest, parent).len() {
            lemma_moons_of_valid(rest, parent, j);
        }
    }
}

impl PlanetSystem {
    /// Reads the system named `name` from the lines of a table: the first
    /// line is a header, blank lines are skipped, and each row has nine
    /// cells, cell 7 naming the kind of body. The star is that of the last
    /// `sun` row (a blank star when there is none), the planets come in row
    /// order, and each planet gets, in row order, the moons whose cell 6
    /// holds its name. Cells that are not numbers count as zero. The first
    /// row that cannot be read gives the error.
    pub fn new_system_from_lines(name: String, lines: &Vec<String>) -> (r: Result<PlanetSystem, LoadError>)
        ensures
            match first_refused(string_views(lines@), lines@.len() as int) {
                Some(i) => is_load_error_at(r, i, lines@[i]@),
                None => r matches Ok(ps) && ps@ == assemble(
                    name@,
                    scan_rows(string_views(lines@), lines@.len() as int),
                ) && planet_system_valid(ps@),
            },
    {
        let ghost lv = string_views(lines@);
        let mut star = CenterStar::new();
        let mut planets: Vec<Planet> = Vec::new();
        let mut moons: Vec<(String, Moon)> = Vec::new();
        let mut i: usize = if lines.len() > 0 {
            1
        } else {
            0
        };
        assert(scan_rows(lv, i as int) == scan_rows(lv, 0));
        assert(!is_row(lv, 0));
        assert(first_refused(lv, 0) is None);
        assert(first_refused(lv, i as int) is None) by {
            if i == 1 {
                assert(first_refused(lv, 1) == first_refused(lv, 0));
            }
        }
        assert(planets@.map_values(|p: Planet| p@) =~= Seq::<PlanetView>::empty());
        assert(moons@.map_values(|e: (String, Moon)| (e.0@, e.1@)) =~= Seq::<(Seq<char>, MoonView)>::empty());
        while i < lines.len()
            invariant
                i <= lines@.len(),
                lines@.len() > 0 ==> i >= 1,
                lv == string_views(lines@),
                first_refused(lv, i as int) is None,
                scan_rows(lv, i as int) == (SystemScan {
                    star: star@,
                    planets: planets@.map_values(|p: Planet| p@),
                    moons: moons@.map_values(|e: (String, Moon)| (e.0@, e.1@)),
                }),
                center_star_valid(star@),
                forall|k: int| 0 <= k < planets@.len() ==> planet_valid(#[trigger] planets@[k]@),
                forall|j: int| 0 <= j < moons@.len() ==> moon_valid(#[trigger] moons@[j].1@),
            decreases lines@.len() - i,
        {
            assert(lv[i as int] == lines@[i as int]@);
            if !lines[i].as_str().is_empty() {
                let cells = split_cells(lines[i].as_str());
                let ghost cv = split_spec(lv[i as int]);
                assert(cells@.len() == cv.len());
                assert(is_row(lv, i as int));
                if cells.len() != SYSTEM_ROW_CELLS {
                    let r = Err(LoadError::WrongColumnCount { line: i, found: cells.len() });
                    proof {
                        lemma_first_refused_stays(lv, i as int, lines@.len() as int);
                    }
                    return r;
                }
                assert(cells@[7]@ == cv[7]);
                proof {
                    reveal_strlit("sun");
                    reveal_strlit("planet");
                    reveal_strlit("moon");
                }
                let ghost pv = planets@;
                let ghost mv = moons@;
                match Types::from_cells(&cells) {
                    None => {
                        let r = Err(LoadError::UnknownKind { line: i, kind: cells[7].clone() });
                        proof {
                            lemma_first_refused_stays(lv, i as int, lines@.len() as int);
                        }
                        return r;
                    },
                    Some(Types::CenterStar(st)) => {
                        star = st;
                    },
                    Some(Types::Planet(p, _)) => {
                        planets.push(p);
                        assert(planets@.map_values(|p: Planet| p@) =~= pv.map_values(|p: Planet| p@).push(p@));
                    },
                    Some(Types::Moon(m, c)) => {
                        moons.push((c, m));
                        assert(moons@.map_values(|e: (String, Moon)| (e.0@, e.1@)) =~= mv.map_values(
                            |e: (String, Moon)| (e.0@, e.1@),
                        ).push((c@, m@)));
                    },
                }
            }
            i = i + 1;
        }
        let out = attach_moons(planets, &moons);
        let ps = PlanetSystem { name, center_star: star, planets: out };
        assert(ps@ == assemble(name@, scan_rows(lv, lines@.len() as int)));
        Ok(ps)
    }
}

/// Strict lexicographic order of texts by character code, the order of
/// Rust's `String` comparison.
pub open spec fn lex_lt(a: Seq<char>, b: Seq<char>) -> bool
    decreases a.len(),
{
    if b.len() == 0 {
        false
    } else if a.len() == 0 {
        true
    } else if a[0] != b[0] {
        a[0] < b[0]
    } else {
        lex_lt(a.drop_first(), b.drop_first())
    }
}

pub proof fn lemma_lex_irreflexive(a: Seq<char>)
    ensures
        !lex_lt(a, a),
    decreases a.len(),
{
    if a.len() > 0 {
        lemma_lex_irreflexive(a.drop_first());
    }
}

pub proof fn lemma_lex_transitive(a: Seq<char>, b: Seq<char>, c: Seq<char>)
    requires
        lex_lt(a, b),
        lex_lt(b, c),
    ensures
        lex_lt(a, c),
    decreases a.len(),
{
    if a.len() > 0 && b.len() > 0 && c.len() > 0 && a[0] == b[0] && b[0] == c[0] {
        lemma_lex_transitive(a.drop_first(), b.drop_first(), c.drop_first());
    }
}

pub proof fn lemma_lex_total(a: Seq<char>, b: Seq<char>)
    requires
        a != b,
    ensures
        lex_lt(a, b) || lex_lt(b, a),
    decreases a.len(),
{
    if a.len() > 0 && b.len() > 0 && a[0] == b[0] {
        if a.drop_first() == b.drop_first() {
            assert(a =~= seq![a[0]] + a.drop_first());
            assert(b =~= seq![b[0]] + b.drop_first());
        }
        lemma_lex_total(a.drop_first(), b.drop_first());
    } else if a.len() == 0 && b.len() == 0 {
        assert(a =~= b);
    }
}

/// Whether `a` comes strictly before `b` in lexicographic order.
pub fn text_lt(a: &String, b: &String) -> (r: bool)
    ensures
        r == lex_lt(a@, b@),
{
    let x = chars_of(a.as_str());
    let y = chars_of(b.as_str());
    let mut i: usize = 0;
    assert(x@.subrange(0, x@.len() as int) =~= x@);
    assert(y@.subrange(0, y@.len() as int) =~= y@);
    while i < x.len() && i < y.len() && x[i] == y[i]
        invariant
            i <= x@.len(),
            i <= y@.len(),
            lex_lt(x@, y@) == lex_lt(
                x@.subrange(i as int, x@.len() as int),
                y@.subrange(i as int, y@.len() as int),
            ),
        decreases x@.len() - i,
    {
        let ghost xs = x@.subrange(i as int, x@.len() as int);
        let ghost ys = y@.subrange(i as int, y@.len() as int);
        assert(xs.drop_first() =~= x@.subrange(i + 1, x@.len() as int));
        assert(ys.drop_first() =~= y@.subrange(i + 1, y@.len() as int));
        i = i + 1;
    }
    let ghost xs = x@.subrange(i as int, x@.len() as int);
    let ghost ys = y@.subrange(i as int, y@.len() as int);
    if i == y.len() {
        assert(ys.len() == 0);
        false
    } else if i == x.len() {
        true
    } else {
        assert(xs[0] == x@[i as int] && ys[0] == y@[i as int]);
        x[i] < y[i]
    }
}

/// Number of cells in a row of a table of several systems.
pub const TABLE_ROW_CELLS: usize = 14;

/// The first of the first `n` lines that is a row without fourteen cells.
pub open spec fn first_wrong_width(lines: Seq<Seq<char>>, n: int) -> Option<int>
    decreases n,
{
    if n <= 0 {
        None
    } else {
        match first_wrong_width(lines, n - 1) {
            Some(i) => Some(i),
            None => if is_row(lines, n - 1) && split_spec(lines[n - 1]).len() != TABLE_ROW_CELLS {
                Some(n - 1)
            } else {
                None
            },
        }
    }
}

/// Whether line `i` is a row of the system named `name`.
pub open spec fn row_of(lines: Seq<Seq<char>>, i: int, name: Seq<char>) -> bool {
    is_row(lines, i) && split_spec(lines[i])[0] == name
}

/// The names of the systems that the rows among the first `n` lines mention.
pub open spec fn row_names(lines: Seq<Seq<char>>, n: int) -> Set<Seq<char>>
    decreases n,
{
    if n <= 0 {
        Set::empty()
    } else if is_row(lines, n - 1) {
        row_names(lines, n - 1).insert(split_spec(lines[n - 1])[0])
    } else {
        row_names(lines, n - 1)
    }
}

/// The star of the first row of system `name` among the first `n` lines.
pub open spec fn group_star(lines: Seq<Seq<char>>, n: int, name: Seq<char>) -> Option<CenterStarView>
    decreases n,
{
    if n <= 0 {
        None
    } else {
        match group_star(lines, n - 1, name) {
            Some(st) => Some(st),
            None => if row_of(lines, n - 1, name) {
                Some(star_from_cells(split_spec(lines[n - 1]), 2, 3, 4, 5))
            } else {
                None
            },
        }
    }
}

/// The planets, in row order, of the rows of system `name` among the first `n` lines.
pub open spec fn group_planets(lines: Seq<Seq<char>>, n: int, name: Seq<char>) -> Seq<PlanetView>
    decreases n,
{
    if n <= 0 {
        Seq::empty()
    } else if row_of(lines, n - 1, name) {
        group_planets(lines, n - 1, name).push(planet_from_cells(split_spec(lines[n - 1]), 7))
    } else {
        group_planets(lines, n - 1, name)
    }
}

/// The system named `name` as the rows among the first `n` lines describe it.
pub open spec fn grouped_system(lines: Seq<Seq<char>>, n: int, name: Seq<char>) -> PlanetSystemView {
    PlanetSystemView {
        name,
        center_star: match group_star(lines, n, name) {
            Some(st) => st,
            None => blank_star(),
        },
        planets: group_planets(lines, n, name),
    }
}

/// `systems` holds one system per name that the rows among the first `n`
/// lines mention, in strictly increasing order of name, each as its rows
/// describe it.
pub open spec fn is_grouping(systems: Seq<PlanetSystemView>, lines: Seq<Seq<char>>, n: int) -> bool {
    &&& forall|j: int, k: int|
        0 <= j < k < systems.len() ==> lex_lt(#[trigger] systems[j].name, #[trigger] systems[k].name)
    &&& forall|k: int| 0 <= k < systems.len() ==> #[trigger] systems[k] == grouped_system(lines, n, systems[k].name)
    &&& forall|name: Seq<char>|
        #[trigger] row_names(lines, n).contains(name) <==> exists|k: int| 0 <= k < systems.len() && #[trigger] systems[k].name == name
}

pub proof fn lemma_group_of_unnamed(lines: Seq<Seq<char>>, n: int, name: Seq<char>)
    requires
        !row_names(lines, n).contains(name),
    ensures
        group_star(lines, n, name) is None,
        group_planets(lines, n, name) == Seq::<PlanetView>::empty(),
    decreases n,
{
    if n > 0 {
        lemma_group_of_unnamed(lines, n - 1, name);
    }
}

pub proof fn lemma_group_of_named(lines: Seq<Seq<char>>, n: int, name: Seq<char>)
    requires
        row_names(lines, n).contains(name),
    ensures
        group_star(lines, n, name) is Some,
    decreases n,
{
    if n > 0 {
        if row_names(lines, n - 1).contains(name) {
            lemma_group_of_named(lines, n - 1, name);
        }
    }
}

/// A line that is not a row of system `name` leaves what the rows say of
/// `name` as it was.
pub proof fn lemma_other_row(lines: Seq<Seq<char>>, i: int, name: Seq<char>)
    requires
        0 <= i,
        !row_of(lines, i, name),
    ensures
        grouped_system(lines, i + 1, name) == grouped_system(lines, i, name),
{
}

/// `r` is the error that line `i`, a row of the wrong width, gives.
pub open spec fn is_width_error_at<T>(r: Result<T, LoadError>, i: int, text: Seq<char>) -> bool {
    r matches Err(LoadError::WrongColumnCount { line, found }) && line == i && found == split_spec(
        text,
    ).len()
}

pub proof fn lemma_first_wrong_width_stays(lines: Seq<Seq<char>>, i: int, n: int)
    requires
        first_wrong_width(lines, i + 1) == Some(i),
        i + 1 <= n,
    ensures
        first_wrong_width(lines, n) == Some(i),
    decreases n - i,
{
    if n > i + 1 {
        lemma_first_wrong_width_stays(lines, i, n - 1);
    }
}

/// The views of a list of systems.
pub open spec fn system_views(systems: Seq<PlanetSystem>) -> Seq<PlanetSystemView> {
    systems.map_values(|p: PlanetSystem| p@)
}

/// The first position whose system's name does not come before `name`.
fn find_slot(systems: &Vec<PlanetSystem>, name: &String) -> (k: usize)
    ensures
        k <= systems@.len(),
        forall|j: int| 0 <= j < k ==> lex_lt(#[trigger] system_views(systems@)[j].name, name@),
        k < systems@.len() ==> !lex_lt(system_views(systems@)[k as int].name, name@),
{
    let ghost sv = system_views(systems@);
    let mut k: usize = 0;
    while k < systems.len() && text_lt(&systems[k].name, name)
        invariant
            k <= systems@.len(),
            sv == system_views(systems@),
            forall|j: int| 0 <= j < k ==> lex_lt(#[trigger] sv[j].name, name@),
        decreases systems@.len() - k,
    {
        assert(sv[k as int].name == systems@[k as int].name@);
        k = k + 1;
    }
    if k < systems.len() {
        assert(sv[k as int].name == systems@[k as int].name@);
    }
    k
}

/// A row of a system that the grouping already holds adds its planet there.
pub proof fn lemma_grouping_existing(sv: Seq<PlanetSystemView>, lines: Seq<Seq<char>>, i: int, k: int)
    requires
        0 <= i,
        is_grouping(sv, lines, i),
        0 <= k < sv.len(),
        row_of(lines, i, sv[k].name),
    ensures
        is_grouping(
            sv.update(
                k,
                PlanetSystemView {
                    planets: sv[k].planets.push(planet_from_cells(split_spec(lines[i]), 7)),
                    ..sv[k]
                },
            ),
            lines,
            i + 1,
        ),
{
    let name = sv[k].name;
    let nv = sv.update(
        k,
        PlanetSystemView { planets: sv[k].planets.push(planet_from_cells(split_spec(lines[i]), 7)), ..sv[k] },
    );
    assert(row_names(lines, i).contains(name));
    lemma_group_of_named(lines, i, name);
    assert forall|j: int| 0 <= j < nv.len() implies #[trigger] nv[j] == grouped_system(lines, i + 1, nv[j].name) by {
        if j != k {
            if sv[j].name == name {
                lemma_lex_irreflexive(name);
            }
            lemma_other_row(lines, i, sv[j].name);
        }
    }
    assert forall|m: Seq<char>| #[trigger] row_names(lines, i + 1).contains(m) <==> exists|j: int| 0 <= j < nv.len() && #[trigger] nv[j].name == m by {
        if row_names(lines, i + 1).contains(m) {
            if m == name {
                assert(nv[k].name == m);
            } else {
                assert(row_names(lines, i).contains(m));
                let j = choose|j: int| 0 <= j < sv.len() && #[trigger] sv[j].name == m;
                assert(nv[j].name == m);
            }
        }
        if exists|j: int| 0 <= j < nv.len() && #[trigger] nv[j].name == m {
            let j = choose|j: int| 0 <= j < nv.len() && #[trigger] nv[j].name == m;
            assert(sv[j].name == m);
        }
    }
}

/// A row of a system that the grouping lacks adds the system at its place.
pub proof fn lemma_grouping_new(sv: Seq<PlanetSystemView>, lines: Seq<Seq<char>>, i: int, k: int, name: Seq<char>)
    requires
        0 <= i,
        is_grouping(sv, lines, i),
        0 <= k <= sv.len(),
        row_of(lines, i, name),
        forall|j: int| 0 <= j < k ==> lex_lt(#[trigger] sv[j].name, name),
        k < sv.len() ==> !lex_lt(sv[k].name, name) && sv[k].name != name,
    ensures
        grouped_system(lines, i + 1, name) == (PlanetSystemView {
            name,
            center_star: star_from_cells(split_spec(lines[i]), 2, 3, 4, 5),
            planets: seq![planet_from_cells(split_spec(lines[i]), 7)],
        }),
        is_grouping(sv.insert(k, grouped_system(lines, i + 1, name)), lines, i + 1),
{
    if k < sv.len() {
        lemma_lex_total(sv[k].name, name);
    }
    if row_names(lines, i).contains(name) {
        let j = choose|j: int| 0 <= j < sv.len() && #[trigger] sv[j].name == name;
        lemma_lex_irreflexive(name);
        if j > k {
            lemma_lex_transitive(name, sv[k].name, sv[j].name);
        }
    }
    lemma_group_of_unnamed(lines, i, name);
    assert(group_planets(lines, i + 1, name) =~= seq![planet_from_cells(split_spec(lines[i]), 7)]);
    let nv = sv.insert(k, grouped_system(lines, i + 1, name));
    assert forall|a: int, b: int| 0 <= a < b < nv.len() implies lex_lt(#[trigger] nv[a].name, #[trigger] nv[b].name) by {
        if a < k && b == k {
        } else if a < k && b > k {
            assert(nv[b] == sv[b - 1]);
        } else if a == k && b > k {
            assert(nv[b] == sv[b - 1]);
            if b - 1 > k {
                lemma_lex_transitive(name, sv[k].name, sv[b - 1].name);
            }
        } else if a > k {
            assert(nv[a] == sv[a - 1]);
            assert(nv[b] == sv[b - 1]);
        }
    }
    assert forall|j: int| 0 <= j < nv.len() implies #[trigger] nv[j] == grouped_system(lines, i + 1, nv[j].name) by {
        if j != k {
            let o: int = if j < k { j } else { j - 1 };
            assert(nv[j] == sv[o]);
            if sv[o].name == name {
                lemma_lex_irreflexive(name);
                if o > k {
                    lemma_lex_transitive(name, sv[k].name, sv[o].name);
                }
            }
            lemma_other_row(lines, i, sv[o].name);
        }
    }
    assert forall|m: Seq<char>| #[trigger] row_names(lines, i + 1).contains(m) <==> exists|j: int| 0 <= j < nv.len() && #[trigger] nv[j].name == m by {
        if row_names(lines, i + 1).contains(m) {
            if m == name {
                assert(nv[k].name == m);
            } else {
                assert(row_names(lines, i).contains(m));
                let j = choose|j: int| 0 <= j < sv.len() && #[trigger] sv[j].name == m;
                let t: int = if j < k { j } else { j + 1 };
                assert(nv[t].name == m);
            }
        }
        if exists|j: int| 0 <= j < nv.len() && #[trigger] nv[j].name == m {
            let j = choose|j: int| 0 <= j < nv.len() && #[trigger] nv[j].name == m;
            if j != k {
                let o: int = if j < k { j } else { j - 1 };
                assert(nv[j] == sv[o]);
                assert(row_names(lines, i).contains(m));
            }
        }
    }
}

/// Adds the row `cells` (line `i`) to a grouping of the rows before it.
fn add_table_row(systems: &mut Vec<PlanetSystem>, cells: &Vec<String>, Ghost(lines): Ghost<Seq<Seq<char>>>, Ghost(i): Ghost<int>)
    requires
        0 <= i,
        is_grouping(system_views(old(systems)@), lines, i),
        forall|k: int| 0 <= k < old(systems)@.len() ==> planet_system_valid(#[trigger] old(systems)@[k]@),
        is_row(lines, i),
        string_views(cells@) == split_spec(lines[i]),
        cells@.len() == TABLE_ROW_CELLS,
    ensures
        is_grouping(system_views(final(systems)@), lines, i + 1),
        forall|k: int| 0 <= k < final(systems)@.len() ==> planet_system_valid(#[trigger] final(systems)@[k]@),
{
    let ghost sv = system_views(systems@);
    let ghost name = cells@[0]@;
    assert(split_spec(lines[i])[0] == name);
    let planet = Planet::from_columns(cells, 7);
    let k = find_slot(systems, &cells[0]);
    if k < systems.len() && systems[k].name == cells[0] {
        assert(sv[k as int].name == name);
        proof {
            lemma_grouping_existing(sv, lines, i, k as int);
        }
        let ghost before = systems@;
        let mut ps = systems.remove(k);
        ps.planets.push(planet);
        assert(ps@.planets =~= sv[k as int].planets.push(planet@));
        systems.insert(k, ps);
        assert(systems@ =~= before.update(k as int, ps));
        assert(system_views(systems@) =~= sv.update(k as int, ps@));
    } else {
        proof {
            if k < systems@.len() {
                assert(sv[k as int].name == systems@[k as int].name@);
            }
            lemma_grouping_new(sv, lines, i, k as int, name);
        }
        let star = CenterStar::from_columns(cells, 2, 3, 4, 5);
        let mut planets: Vec<Planet> = Vec::new();
        planets.push(planet);
        let ps = PlanetSystem { name: cells[0].clone(), center_star: star, planets };
        assert(ps@.planets =~= seq![planet@]);
        systems.insert(k, ps);
        assert(system_views(systems@) =~= sv.insert(k as int, ps@));
    }
}

impl PlanetSystem {
    /// Reads the systems of a table of several: the first line is a
    /// header, blank lines are skipped, and each row has fourteen cells: the
    /// system's name (cell 0), its star (name, mass, radius and temperature
    /// in cells 2 to 5) and one of its planets (cells 7 to 12). Each system
    /// appears once, in increasing order of name, with the star of its first
    /// row and the planets of its rows in row order. Cells that are not
    /// numbers count as zero. The first row of another width gives the error.
    pub fn new_systems_from_lines(lines: &Vec<String>) -> (r: Result<Vec<PlanetSystem>, LoadError>)
        ensures
            match first_wrong_width(string_views(lines@), lines@.len() as int) {
                Some(i) => is_width_error_at(r, i, lines@[i]@),
                None => r matches Ok(v) && is_grouping(
                    system_views(v@),
                    string_views(lines@),
                    lines@.len() as int,
                ) && forall|k: int| 0 <= k < v@.len() ==> planet_system_valid(#[trigger] v@[k]@),
            },
    {
        let ghost lv = string_views(lines@);
        let mut systems: Vec<PlanetSystem> = Vec::new();
        let mut i: usize = if lines.len() > 0 {
            1
        } else {
            0
        };
        assert(!is_row(lv, 0));
        assert(first_wrong_width(lv, 0) is None);
        assert(first_wrong_width(lv, i as int) is None) by {
            if i == 1 {
                assert(first_wrong_width(lv, 1) == first_wrong_width(lv, 0));
            }
        }
        assert(row_names(lv, i as int) =~= row_names(lv, 0));
        assert(system_views(systems@) =~= Seq::<PlanetSystemView>::empty());
        while i < lines.len()
            invariant
                i <= lines@.len(),
                lines@.len() > 0 ==> i >= 1,
                lv == string_views(lines@),
                first_wrong_width(lv, i as int) is None,
                is_grouping(system_views(systems@), lv, i as int),
                forall|k: int| 0 <= k < systems@.len() ==> planet_system_valid(#[trigger] systems@[k]@),
            decreases lines@.len() - i,
        {
            assert(lv[i as int] == lines@[i as int]@);
            if !lines[i].as_str().is_empty() {
                let cells = split_cells(lines[i].as_str());
                assert(is_row(lv, i as int));
                assert(cells@.len() == split_spec(lv[i as int]).len());
                if cells.len() != TABLE_ROW_CELLS {
                    let r = Err(LoadError::WrongColumnCount { line: i, found: cells.len() });
                    proof {
                        lemma_first_wrong_width_stays(lv, i as int, lines@.len() as int);
                    }
                    return r;
                }
                add_table_row(&mut systems, &cells, Ghost(lv), Ghost(i as int));
            } else {
                let ghost sv = system_views(systems@);
                assert(row_names(lv, i + 1) == row_names(lv, i as int));
                assert forall|k: int| 0 <= k < sv.len() implies #[trigger] sv[k] == grouped_system(lv, i + 1, sv[k].name) by {
                    lemma_other_row(lv, i as int, sv[k].name);
                }
            }
            i = i + 1;
        }
        Ok(systems)
    }
}

} // verus!
