use vstd::prelude::*;
use crate::direction::{Direction, direction_of_code};
use crate::grid::{AirportMap, Cell, MapPoint, Spacing};
use crate::registry::ConfigurationFault;
use crate::text::{
    all_digits, char_digit, char_string, chars_of, digit_value, lemma_split_nonempty, parse_usize,
    parse_usize_spec, seqs_view, split_on, split_seq,
};

verus! {

/// `s` without one trailing carriage return.
pub open spec fn strip_cr(s: Seq<char>) -> Seq<char> {
    if s.len() > 0 && s.last() == '\r' {
        s.drop_last()
    } else {
        s
    }
}

/// The grid lines of a map file cut at its newlines into `pieces`: every
/// piece after the size line, as `str::lines` yields them (a carriage
/// return before a newline dropped, no line after a final newline).
pub open spec fn body_lines(pieces: Seq<Seq<char>>) -> Seq<Seq<char>> {
    let n = pieces.len() as int;
    let m = if n >= 2 && pieces[n - 1].len() == 0 { n - 2 } else { n - 1 };
    Seq::new(
        if m > 0 { m as nat } else { 0 },
        |i: int| if i + 1 < n - 1 { strip_cr(pieces[i + 1]) } else { pieces[i + 1] },
    )
}

/// Width and height from the size line `WIDTHxHEIGHT`.
pub open spec fn map_dims(size_line: Seq<char>) -> Option<(usize, usize)> {
    let parts = split_seq(size_line, 'x');
    if parts.len() < 2 {
        None
    } else {
        match (parse_usize_spec(parts[0]), parse_usize_spec(parts[1])) {
            (Some(w), Some(l)) => Some((w, l)),
            _ => None,
        }
    }
}

/// The token for a cell left empty.
pub open spec fn empty_token() -> Seq<char> {
    seq!['.', '.', '.']
}

/// What a cell token stands for: `None` for the empty token; else kind
/// letter, name character and direction code.
pub open spec fn token_cell(t: Seq<char>) -> Result<Option<Cell>, ConfigurationFault> {
    if t == empty_token() {
        Ok(None)
    } else if t.len() < 3 {
        Err(ConfigurationFault::ShortToken)
    } else {
        match direction_of_code(t[2]) {
            None => Err(ConfigurationFault::BadDirection(t[2])),
            Some(d) => if t[0] == 'R' || t[0] == 'T' {
                match digit_value(t[1]) {
                    None => Err(ConfigurationFault::BadName(t[1])),
                    Some(n) => Ok(Some(if t[0] == 'R' { Cell::Runway(n as usize, d) } else { Cell::Taxiway(n as usize, d) })),
                }
            } else if t[0] == 'M' {
                Ok(Some(Cell::GateTaxiLine(seq![t[1]], d)))
            } else if t[0] == 'G' {
                Ok(Some(Cell::Gate(seq![t[1]])))
            } else {
                Ok(Some(Cell::Empty))
            },
        }
    }
}

/// Checks token `x` of line `y` against a map of `width` by `length`.
pub open spec fn token_check(t: Seq<char>, y: int, x: int, width: usize, length: usize) -> Result<(), ConfigurationFault> {
    match token_cell(t) {
        Err(e) => Err(e),
        Ok(None) => Ok(()),
        Ok(Some(_)) => if y >= length {
            Err(ConfigurationFault::TooManyRows)
        } else if x >= width {
            Err(ConfigurationFault::TooManyColumns)
        } else {
            Ok(())
        },
    }
}

/// The first error among the tokens of line `y`, left to right.
pub open spec fn tokens_check(toks: Seq<Seq<char>>, y: int, width: usize, length: usize) -> Result<(), ConfigurationFault>
    decreases toks.len(),
{
    if toks.len() == 0 {
        Ok(())
    } else {
        match tokens_check(toks.drop_last(), y, width, length) {
            Err(e) => Err(e),
            Ok(()) => token_check(toks.last(), y, toks.len() - 1, width, length),
        }
    }
}

/// The first error among all tokens, line by line.
pub open spec fn lines_check(lines: Seq<Seq<char>>, width: usize, length: usize) -> Result<(), ConfigurationFault>
    decreases lines.len(),
{
    if lines.len() == 0 {
        Ok(())
    } else {
        match lines_check(lines.drop_last(), width, length) {
            Err(e) => Err(e),
            Ok(()) => tokens_check(split_seq(lines.last(), ','), lines.len() - 1, width, length),
        }
    }
}

/// The cell that token `x` of line `y` puts on the map read from `lines`.
pub open spec fn parsed_cell(lines: Seq<Seq<char>>, y: int, x: int) -> Cell {
    if 0 <= y < lines.len() && 0 <= x < split_seq(lines[y], ',').len() {
        match token_cell(split_seq(lines[y], ',')[x]) {
            Ok(Some(c)) => c,
            _ => Cell::Empty,
        }
    } else {
        Cell::Empty
    }
}

/// The cell at row `r`, column `c` of the map with its margins.
pub open spec fn expected_cell(lines: Seq<Seq<char>>, width: usize, length: usize, sp: Spacing, r: int, c: int) -> Cell {
    if sp.top_bottom <= r < sp.top_bottom + length && sp.left_right <= c < sp.left_right + width {
        parsed_cell(lines, r - sp.top_bottom, c - sp.left_right)
    } else {
        Cell::Empty
    }
}

/// The map with its margins has at least one cell and its sizes fit.
pub open spec fn padded_fits(width: usize, length: usize, sp: Spacing) -> bool {
    &&& 0 < length + 2 * sp.top_bottom <= usize::MAX
    &&& 0 < width + 2 * sp.left_right <= usize::MAX
}

/// `m` is the map read from `lines`, `width` by `length`, with margins `sp`.
pub open spec fn map_read(m: AirportMap, lines: Seq<Seq<char>>, width: usize, length: usize, sp: Spacing) -> bool {
    &&& m.wf()
    &&& m.length == length
    &&& m.width == width
    &&& m.spacing == sp
    &&& m.rows() == length + 2 * sp.top_bottom
    &&& m.cols() == width + 2 * sp.left_right
    &&& forall|r: int, c: int| 0 <= r < m.rows() && 0 <= c < m.cols() ==> #[trigger] m.cell((r, c)) == expected_cell(lines, width, length, sp, r, c)
}

/// The outcome of reading the map file `text` with margins `sp`.
pub open spec fn map_outcome(text: Seq<char>, sp: Spacing, m: Result<AirportMap, ConfigurationFault>) -> bool {
    let pieces = split_seq(text, '\n');
    match map_dims(pieces[0]) {
        None => m matches Err(e) && e == ConfigurationFault::BadDimensions,
        Some((w, l)) => if !padded_fits(w, l, sp) {
            m matches Err(e) && e == ConfigurationFault::BadDimensions
        } else {
            match lines_check(body_lines(pieces), w, l) {
                Err(e) => m matches Err(x) && x == e,
                Ok(()) => m matches Ok(map) && map_read(map, body_lines(pieces), w, l, sp),
            }
        },
    }
}


/// Reads one cell token.
pub fn read_token(t: &Vec<char>) -> (r: Result<Option<MapPoint>, ConfigurationFault>)
    ensures
        match token_cell(t@) {
            Ok(Some(c)) => r matches Ok(Some(p)) && p@ == c,
            Ok(None) => r matches Ok(None),
            Err(e) => r matches Err(x) && x == e,
        },
{
    if t.len() == 3 && t[0] == '.' && t[1] == '.' && t[2] == '.' {
        assert(t@ =~= empty_token());
        return Ok(None);
    }
    if t.len() < 3 {
        return Err(ConfigurationFault::ShortToken);
    }
    let kind = t[0];
    let name = t[1];
    let direction = match Direction::parse(&t[2]) {
        Err(_) => {
            return Err(ConfigurationFault::BadDirection(t[2]));
        },
        Ok(d) => d,
    };
    if kind == 'R' || kind == 'T' {
        match char_digit(name) {
            None => Err(ConfigurationFault::BadName(name)),
            Some(n) => Ok(Some(if kind == 'R' { MapPoint::Runway(n, direction) } else { MapPoint::Taxiway(n, direction) })),
        }
    } else if kind == 'M' {
        Ok(Some(MapPoint::GateTaxiLine(char_string(name), direction)))
    } else if kind == 'G' {
        Ok(Some(MapPoint::Gate(char_string(name))))
    } else {
        Ok(Some(MapPoint::Empty))
    }
}

/// The grid lines of a map file cut at its newlines into `pieces`.
pub fn lines_of(pieces: &Vec<Vec<char>>) -> (r: Vec<Vec<char>>)
    requires
        pieces@.len() >= 1,
    ensures
        seqs_view(r@) == body_lines(seqs_view(pieces@)),
{
    let ghost pv = seqs_view(pieces@);
    let n = pieces.len();
    let m = if n >= 2 && pieces[n - 1].len() == 0 { n - 2 } else { n - 1 };
    let mut r: Vec<Vec<char>> = Vec::new();
    let mut i: usize = 0;
    while i < m
        invariant
            pv == seqs_view(pieces@),
            n == pieces@.len(),
            n >= 1,
            m == (if n >= 2 && pieces@[n - 1]@.len() == 0 { n - 2 } else { n - 1 }),
            i <= m,
            seqs_view(r@) == body_lines(pv).take(i as int),
        decreases m - i,
    {
        let piece = &pieces[i + 1];
        let mut line: Vec<char> = Vec::new();
        let mut k: usize = 0;
        let keep = if i + 1 < n - 1 && piece.len() > 0 && piece[piece.len() - 1] == '\r' {
            piece.len() - 1
        } else {
            piece.len()
        };
        while k < keep
            invariant
                k <= keep <= piece@.len(),
                line@ == piece@.take(k as int),
            decreases keep - k,
        {
            line.push(piece[k]);
            assert(piece@.take(k + 1) =~= piece@.take(k as int).push(piece@[k as int]));
            k = k + 1;
        }
        proof {
            assert(pv[i + 1] == piece@);
            assert(line@ =~= body_lines(pv)[i as int]);
        }
        let ghost before = r@;
        let ghost lv = line@;
        r.push(line);
        proof {
            assert(r@ == before.push(r@.last()));
            assert(seqs_view(r@) =~= seqs_view(before).push(lv));
            assert(seqs_view(r@) =~= body_lines(pv).take(i + 1));
        }
        i = i + 1;
    }
    assert(body_lines(pv).take(m as int) =~= body_lines(pv));
    r
}

/// Width and height from the size line.
pub fn read_dims(size_line: &Vec<char>) -> (r: Option<(usize, usize)>)
    ensures
        r == map_dims(size_line@),
{
    let parts = split_on(size_line, 'x');
    if parts.len() < 2 {
        return None;
    }
    assert(seqs_view(parts@)[0] == parts@[0]@);
    assert(seqs_view(parts@)[1] == parts@[1]@);
    match (parse_usize(&parts[0]), parse_usize(&parts[1])) {
        (Some(w), Some(l)) => Some((w, l)),
        _ => None,
    }
}


proof fn lemma_tokens_fault_stays(toks: Seq<Seq<char>>, y: int, w: usize, l: usize, n: int)
    requires
        0 <= n <= toks.len(),
        tokens_check(toks.take(n), y, w, l) is Err,
    ensures
        tokens_check(toks, y, w, l) == tokens_check(toks.take(n), y, w, l),
    decreases toks.len() - n,
{
    if n < toks.len() {
        assert(toks.take(n + 1).drop_last() =~= toks.take(n));
        lemma_tokens_fault_stays(toks, y, w, l, n + 1);
    } else {
        assert(toks.take(n) =~= toks);
    }
}

proof fn lemma_lines_fault_stays(lines: Seq<Seq<char>>, w: usize, l: usize, n: int)
    requires
        0 <= n <= lines.len(),
        lines_check(lines.take(n), w, l) is Err,
    ensures
        lines_check(lines, w, l) == lines_check(lines.take(n), w, l),
    decreases lines.len() - n,
{
    if n < lines.len() {
        assert(lines.take(n + 1).drop_last() =~= lines.take(n));
        lemma_lines_fault_stays(lines, w, l, n + 1);
    } else {
        assert(lines.take(n) =~= lines);
    }
}

/// Finds the first bad token of the grid lines, line by line.
pub fn check_lines(lines: &Vec<Vec<char>>, width: usize, length: usize) -> (r: Result<(), ConfigurationFault>)
    ensures
        r == lines_check(seqs_view(lines@), width, length),
{
    let ghost lv = seqs_view(lines@);
    let mut y: usize = 0;
    assert(lv.take(0) =~= Seq::<Seq<char>>::empty());
    while y < lines.len()
        invariant
            lv == seqs_view(lines@),
            y <= lines@.len(),
            lines_check(lv.take(y as int), width, length) == Ok::<(), ConfigurationFault>(()),
        decreases lines@.len() - y,
    {
        let toks = split_on(&lines[y], ',');
        let ghost tv = seqs_view(toks@);
        proof {
            assert(lv.take(y + 1).drop_last() =~= lv.take(y as int));
            assert(lv.take(y + 1).last() == lines@[y as int]@);
            assert(tv.take(0) =~= Seq::<Seq<char>>::empty());
        }
        let mut x: usize = 0;
        #[verifier::loop_isolation(false)]
        while x < toks.len()
            invariant
                tv == seqs_view(toks@),
                x <= toks@.len(),
                tokens_check(tv.take(x as int), y as int, width, length) == Ok::<(), ConfigurationFault>(()),
            decreases toks@.len() - x,
        {
            proof {
                assert(tv.take(x + 1).drop_last() =~= tv.take(x as int));
                assert(tv.take(x + 1).last() == toks@[x as int]@);
            }
            let bad = match read_token(&toks[x]) {
                Err(e) => Some(e),
                Ok(None) => None,
                Ok(Some(_)) => if y >= length {
                    Some(ConfigurationFault::TooManyRows)
                } else if x >= width {
                    Some(ConfigurationFault::TooManyColumns)
                } else {
                    None
                },
            };
            if let Some(e) = bad {
                proof {
                    lemma_tokens_fault_stays(tv, y as int, width, length, x + 1);
                    lemma_lines_fault_stays(lv, width, length, y + 1);
                }
                return Err(e);
            }
            x = x + 1;
        }
        assert(tv.take(x as int) =~= tv);
        y = y + 1;
    }
    assert(lv.take(y as int) =~= lv);
    Ok(())
}

/// The rows of the map read from `lines`, margins included.
fn build_rows(lines: &Vec<Vec<char>>, width: usize, length: usize, sp: Spacing) -> (r: Vec<Vec<MapPoint>>)
    requires
        padded_fits(width, length, sp),
    ensures
        r@.len() == length + 2 * sp.top_bottom,
        forall|i: int| 0 <= i < r@.len() ==> #[trigger] r@[i]@.len() == width + 2 * sp.left_right,
        forall|i: int, c: int| 0 <= i < r@.len() && 0 <= c < r@[i]@.len() ==> #[trigger] r@[i]@[c]@
            == expected_cell(seqs_view(lines@), width, length, sp, i, c),
{
    let ghost lv = seqs_view(lines@);
    let rows = length + 2 * sp.top_bottom;
    let cols = width + 2 * sp.left_right;
    let mut grid: Vec<Vec<MapPoint>> = Vec::new();
    let mut i: usize = 0;
    while i < rows
        invariant
            lv == seqs_view(lines@),
            padded_fits(width, length, sp),
            rows == length + 2 * sp.top_bottom,
            cols == width + 2 * sp.left_right,
            i <= rows,
            grid@.len() == i,
            forall|k: int| 0 <= k < i ==> #[trigger] grid@[k]@.len() == cols,
            forall|k: int, c: int| 0 <= k < i && 0 <= c < cols ==> #[trigger] grid@[k]@[c]@
                == expected_cell(lv, width, length, sp, k, c),
        decreases rows - i,
    {
        let in_band = sp.top_bottom <= i && i - sp.top_bottom < length;
        let toks: Vec<Vec<char>> = if in_band && i - sp.top_bottom < lines.len() {
            split_on(&lines[i - sp.top_bottom], ',')
        } else {
            Vec::new()
        };
        proof {
            if in_band && i - sp.top_bottom < lines@.len() {
                assert(lv[i - sp.top_bottom] == lines@[i - sp.top_bottom]@);
            }
        }
        let mut row: Vec<MapPoint> = Vec::new();
        let mut c: usize = 0;
        while c < cols
            invariant
                lv == seqs_view(lines@),
                rows == length + 2 * sp.top_bottom,
                cols == width + 2 * sp.left_right,
                i < rows,
                in_band == (sp.top_bottom <= i < sp.top_bottom + length),
                in_band && i - sp.top_bottom < lv.len() ==> seqs_view(toks@) == split_seq(lv[i - sp.top_bottom], ','),
                !(in_band && i - sp.top_bottom < lv.len()) ==> toks@.len() == 0,
                c <= cols,
                row@.len() == c,
                forall|k: int| 0 <= k < c ==> #[trigger] row@[k]@ == expected_cell(lv, width, length, sp, i as int, k),
            decreases cols - c,
        {
            let mut cell = MapPoint::Empty;
            if in_band && sp.left_right <= c && c - sp.left_right < width && c - sp.left_right < toks.len() {
                assert(seqs_view(toks@)[c - sp.left_right] == toks@[c - sp.left_right]@);
                if let Ok(Some(p)) = read_token(&toks[c - sp.left_right]) {
                    cell = p;
                }
            }
            row.push(cell);
            c = c + 1;
        }
        grid.push(row);
        i = i + 1;
    }
    grid
}

/// Reads a map file: the size line `WIDTHxHEIGHT`, then one line per row of
/// comma-separated three-character cell tokens. The grid gets margins of
/// empty cells, `sp.top_bottom` rows above and below and `sp.left_right`
/// columns on either side. Bad sizes or tokens are configuration faults.
pub fn build_airport_map(text: &str, sp: Spacing) -> (r: Result<AirportMap, ConfigurationFault>)
    ensures
        map_outcome(text@, sp, r),
{
    let chars = chars_of(text);
    let pieces = split_on(&chars, '\n');
    proof {
        lemma_split_nonempty(text@, '\n');
        assert(seqs_view(pieces@)[0] == pieces@[0]@);
    }
    let (width, length) = match read_dims(&pieces[0]) {
        None => {
            return Err(ConfigurationFault::BadDimensions);
        },
        Some(d) => d,
    };
    if sp.top_bottom > (usize::MAX - length) / 2 || sp.left_right > (usize::MAX - width) / 2 {
        proof {
            if sp.top_bottom > (usize::MAX - length) / 2 {
                assert(length + 2 * sp.top_bottom > usize::MAX) by (nonlinear_arith)
                    requires
                        sp.top_bottom > (usize::MAX - length) / 2,
                        length <= usize::MAX,
                ;
            } else {
                assert(width + 2 * sp.left_right > usize::MAX) by (nonlinear_arith)
                    requires
                        sp.left_right > (usize::MAX - width) / 2,
                        width <= usize::MAX,
                ;
            }
        }
        return Err(ConfigurationFault::BadDimensions);
    }
    assert(length + 2 * sp.top_bottom <= usize::MAX) by (nonlinear_arith)
        requires
            sp.top_bottom <= (usize::MAX - length) / 2,
            length <= usize::MAX,
    ;
    assert(width + 2 * sp.left_right <= usize::MAX) by (nonlinear_arith)
        requires
            sp.left_right <= (usize::MAX - width) / 2,
            width <= usize::MAX,
    ;
    if length + 2 * sp.top_bottom == 0 || width + 2 * sp.left_right == 0 {
        return Err(ConfigurationFault::BadDimensions);
    }
    let lines = lines_of(&pieces);
    match check_lines(&lines, width, length) {
        Err(e) => {
            return Err(e);
        },
        Ok(()) => {},
    }
    let rows = build_rows(&lines, width, length, sp);
    let map = AirportMap { length, width, spacing: sp, map: rows };
    proof {
        assert(map.cols() == width + 2 * sp.left_right);
        assert forall|r: int, c: int| 0 <= r < map.rows() && 0 <= c < map.cols() implies #[trigger] map.cell((r, c))
            == expected_cell(seqs_view(lines@), width, length, sp, r, c) by {
            assert(map.map@[r]@.len() == width + 2 * sp.left_right);
        }
    }
    Ok(map)
}

} // verus!
