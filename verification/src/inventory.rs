use vstd::prelude::*;
use crate::errors::{Error, ErrorKind};
use crate::strutil::{i32_to_string, spec_decimal_int};

verus! {

// ------------------------------------------------------------------
// Splitting the engine's output into lines
// ------------------------------------------------------------------

/// `line` with one trailing carriage return removed, if it ends in one.
pub open spec fn strip_cr(line: Seq<char>) -> Seq<char> {
    if line.len() > 0 && line.last() == '\r' {
        line.drop_last()
    } else {
        line
    }
}

/// The position of the first newline in `s`, or -1 when there is none.
pub open spec fn first_newline(s: Seq<char>) -> int
    decreases s.len(),
{
    if s.len() == 0 {
        -1
    } else if s[0] == '\n' {
        0
    } else {
        let r = first_newline(s.drop_first());
        if r < 0 {
            -1
        } else {
            r + 1
        }
    }
}

/// The lines of `s`: the pieces between newlines, each stripped of one
/// trailing carriage return, with no empty line after a final newline.
pub open spec fn spec_lines(s: Seq<char>) -> Seq<Seq<char>>
    decreases s.len(),
{
    if s.len() == 0 {
        seq![]
    } else {
        let i = first_newline(s);
        if 0 <= i && i < s.len() {
            seq![strip_cr(s.subrange(0, i))] + spec_lines(s.subrange(i + 1, s.len() as int))
        } else {
            seq![strip_cr(s)]
        }
    }
}

proof fn lemma_first_newline_at(s: Seq<char>, j: int)
    requires
        0 <= j < s.len(),
        s[j] == '\n',
        forall|k: int| 0 <= k < j ==> s[k] != '\n',
    ensures
        first_newline(s) == j,
    decreases j,
{
    if j > 0 {
        lemma_first_newline_at(s.drop_first(), j - 1);
    }
}

proof fn lemma_first_newline_none(s: Seq<char>)
    requires
        forall|k: int| 0 <= k < s.len() ==> s[k] != '\n',
    ensures
        first_newline(s) == -1,
    decreases s.len(),
{
    if s.len() > 0 {
        lemma_first_newline_none(s.drop_first());
    }
}

fn find_newline(s: &str) -> (r: Option<usize>)
    ensures
        (r matches Some(j) ==> first_newline(s@) == j as int && (j as int) < s@.len()),
        r is None ==> first_newline(s@) == -1,
{
    let n = s.unicode_len();
    let mut j: usize = 0;
    while j < n
        invariant
            n == s@.len(),
            j <= n,
            forall|k: int| 0 <= k < j ==> s@[k] != '\n',
        decreases n - j,
    {
        if s.get_char(j) == '\n' {
            proof {
                lemma_first_newline_at(s@, j as int);
            }
            return Some(j);
        }
        j = j + 1;
    }
    proof {
        lemma_first_newline_none(s@);
    }
    None
}

fn strip_cr_piece(line: &str) -> (r: String)
    ensures
        r@ == strip_cr(line@),
{
    let n = line.unicode_len();
    if n > 0 && line.get_char(n - 1) == '\r' {
        let r = line.substring_char(0, n - 1).to_owned();
        proof {
            assert(line@.subrange(0, n - 1) =~= line@.drop_last());
        }
        r
    } else {
        line.to_owned()
    }
}

/// Splits `s` into its lines.
pub fn split_lines(s: &str) -> (r: Vec<String>)
    ensures
        r.deep_view() == spec_lines(s@),
{
    let mut result: Vec<String> = Vec::new();
    let mut rest: String = s.to_owned();
    loop
        invariant_except_break
            spec_lines(s@) == result.deep_view() + spec_lines(rest@),
        ensures
            result.deep_view() == spec_lines(s@),
        decreases rest@.len(),
    {
        let rest_len = rest.as_str().unicode_len();
        if rest_len == 0 {
            proof {
                assert(spec_lines(rest@) =~= Seq::<Seq<char>>::empty());
                assert(result.deep_view() =~= result.deep_view() + spec_lines(rest@));
            }
            break ;
        }
        match find_newline(rest.as_str()) {
            Some(j) => {
                let ghost old_dv = result.deep_view();
                let ghost old_rest = rest@;
                let piece = strip_cr_piece(rest.as_str().substring_char(0, j));
                result.push(piece);
                let new_rest = rest.as_str().substring_char(j + 1, rest_len).to_owned();
                rest = new_rest;
                proof {
                    assert(result.deep_view() =~= old_dv.push(strip_cr(old_rest.subrange(
                        0,
                        j as int,
                    ))));
                    assert(spec_lines(old_rest) == seq![
                        strip_cr(old_rest.subrange(0, j as int)),
                    ] + spec_lines(rest@));
                    assert(old_dv + spec_lines(old_rest) =~= result.deep_view() + spec_lines(
                        rest@,
                    ));
                }
            },
            None => {
                let ghost old_dv = result.deep_view();
                let piece = strip_cr_piece(rest.as_str());
                result.push(piece);
                proof {
                    assert(spec_lines(rest@) == seq![strip_cr(rest@)]);
                    assert(result.deep_view() =~= old_dv + spec_lines(rest@));
                }
                break ;
            },
        }
    }
    result
}

// ------------------------------------------------------------------
// Splitting a line into columns
// ------------------------------------------------------------------

/// The position of the first run of three consecutive spaces in `s`, or
/// -1 when there is none.
pub open spec fn first_separator(s: Seq<char>) -> int
    decreases s.len(),
{
    if s.len() < 3 {
        -1
    } else if s[0] == ' ' && s[1] == ' ' && s[2] == ' ' {
        0
    } else {
        let r = first_separator(s.drop_first());
        if r < 0 {
            -1
        } else {
            r + 1
        }
    }
}

/// `s` with its leading and trailing spaces removed.
pub open spec fn spec_trim(s: Seq<char>) -> Seq<char>
    decreases s.len(),
{
    if s.len() == 0 {
        s
    } else if s[0] == ' ' {
        spec_trim(s.drop_first())
    } else if s[s.len() - 1] == ' ' {
        spec_trim(s.drop_last())
    } else {
        s
    }
}

/// The columns of one line of the engine's table. The engine pads its
/// columns with spaces instead of printing a stable separator, so the
/// line is cut at each run of three consecutive spaces, cuts that leave
/// nothing are dropped, and every remaining column is trimmed of the
/// spaces around it.
pub open spec fn spec_split_columns(s: Seq<char>) -> Seq<Seq<char>>
    decreases s.len(),
{
    let i = first_separator(s);
    if 0 <= i && i + 3 <= s.len() {
        let piece = s.subrange(0, i);
        let rest = spec_split_columns(s.subrange(i + 3, s.len() as int));
        if piece.len() > 0 {
            seq![spec_trim(piece)] + rest
        } else {
            rest
        }
    } else {
        if s.len() > 0 {
            seq![spec_trim(s)]
        } else {
            seq![]
        }
    }
}

proof fn lemma_first_separator_at(s: Seq<char>, j: int)
    requires
        0 <= j,
        j + 3 <= s.len(),
        s[j] == ' ' && s[j + 1] == ' ' && s[j + 2] == ' ',
        forall|k: int| 0 <= k < j ==> !((#[trigger] s[k]) == ' ' && s[k + 1] == ' ' && s[k + 2] == ' '),
    ensures
        first_separator(s) == j,
    decreases j,
{
    if j > 0 {
        let t = s.drop_first();
        assert forall|k: int| 0 <= k < j - 1 implies !((#[trigger] t[k]) == ' ' && t[k + 1] == ' '
            && t[k + 2] == ' ') by {
            assert(!(s[k + 1] == ' ' && s[k + 2] == ' ' && s[k + 3] == ' '));
        }
        lemma_first_separator_at(t, j - 1);
    }
}

proof fn lemma_first_separator_none(s: Seq<char>)
    requires
        forall|k: int| 0 <= k && k + 3 <= s.len() ==> !((#[trigger] s[k]) == ' ' && s[k + 1] == ' ' && s[k + 2] == ' '),
    ensures
        first_separator(s) == -1,
    decreases s.len(),
{
    if s.len() >= 3 {
        let t = s.drop_first();
        assert forall|k: int| 0 <= k && k + 3 <= t.len() implies !((#[trigger] t[k]) == ' ' && t[k
            + 1] == ' ' && t[k + 2] == ' ') by {
            assert(!(s[k + 1] == ' ' && s[k + 2] == ' ' && s[k + 3] == ' '));
        }
        lemma_first_separator_none(t);
    }
}

fn find_separator(s: &str) -> (r: Option<usize>)
    ensures
        (r matches Some(j) ==> first_separator(s@) == j as int && j + 3 <= s@.len()),
        r is None ==> first_separator(s@) == -1,
{
    let n = s.unicode_len();
    if n < 3 {
        proof {
            lemma_first_separator_none(s@);
        }
        return None;
    }
    let mut j: usize = 0;
    while j <= n - 3
        invariant
            n == s@.len(),
            3 <= n,
            j + 3 <= n + 1,
            forall|k: int| 0 <= k < j ==> !((#[trigger] s@[k]) == ' ' && s@[k + 1] == ' ' && s@[k + 2] == ' '),
        decreases n - j,
    {
        if s.get_char(j) == ' ' && s.get_char(j + 1) == ' ' && s.get_char(j + 2) == ' ' {
            proof {
                lemma_first_separator_at(s@, j as int);
            }
            return Some(j);
        }
        j = j + 1;
    }
    proof {
        lemma_first_separator_none(s@);
    }
    None
}

proof fn lemma_trim_range(s: Seq<char>, lo: int, hi: int)
    requires
        0 <= lo <= hi <= s.len(),
        forall|j: int| 0 <= j < lo ==> s[j] == ' ',
        forall|j: int| hi <= j < s.len() ==> s[j] == ' ',
        lo < hi ==> s[lo] != ' ' && s[hi - 1] != ' ',
    ensures
        spec_trim(s) == s.subrange(lo, hi),
    decreases s.len(),
{
    if s.len() == 0 {
        assert(s.subrange(lo, hi) =~= s);
    } else if s[0] == ' ' {
        let t = s.drop_first();
        if lo == 0 {
            assert(hi == 0);
            lemma_trim_range(t, 0, 0);
            assert(s.subrange(0, 0) =~= t.subrange(0, 0));
        } else {
            lemma_trim_range(t, lo - 1, hi - 1);
            assert(t.subrange(lo - 1, hi - 1) =~= s.subrange(lo, hi));
        }
    } else if s[s.len() - 1] == ' ' {
        let t = s.drop_last();
        if hi == s.len() {
            if lo < hi {
                assert(false);
            } else {
                assert(s[0] == ' ');
                assert(false);
            }
        }
        lemma_trim_range(t, lo, hi);
        assert(t.subrange(lo, hi) =~= s.subrange(lo, hi));
    } else {
        assert(lo == 0);
        assert(hi == s.len());
        assert(s.subrange(0, s.len() as int) =~= s);
    }
}

/// Removes the spaces around `s`.
pub fn trim_spaces(s: &str) -> (r: String)
    ensures
        r@ == spec_trim(s@),
{
    let n = s.unicode_len();
    let mut lo: usize = 0;
    while lo < n && s.get_char(lo) == ' '
        invariant
            n == s@.len(),
            lo <= n,
            forall|j: int| 0 <= j < lo ==> s@[j] == ' ',
        decreases n - lo,
    {
        lo = lo + 1;
    }
    let mut hi: usize = n;
    while hi > lo && s.get_char(hi - 1) == ' '
        invariant
            n == s@.len(),
            lo <= hi <= n,
            forall|j: int| hi <= j < n ==> s@[j] == ' ',
        decreases hi,
    {
        hi = hi - 1;
    }
    proof {
        lemma_trim_range(s@, lo as int, hi as int);
    }
    s.substring_char(lo, hi).to_owned()
}

/// Splits one line of the engine's table into its columns.
pub fn split_columns(line: &str) -> (r: Vec<String>)
    ensures
        r.deep_view() == spec_split_columns(line@),
{
    let mut result: Vec<String> = Vec::new();
    let mut rest: String = line.to_owned();
    loop
        invariant_except_break
            spec_split_columns(line@) == result.deep_view() + spec_split_columns(rest@),
        ensures
            result.deep_view() == spec_split_columns(line@),
        decreases rest@.len(),
    {
        let rest_len = rest.as_str().unicode_len();
        match find_separator(rest.as_str()) {
            Some(j) => {
                let ghost old_dv = result.deep_view();
                let ghost old_rest = rest@;
                if j > 0 {
                    let piece = rest.as_str().substring_char(0, j);
                    let trimmed = trim_spaces(piece);
                    result.push(trimmed);
                }
                let new_rest = rest.as_str().substring_char(j + 3, rest_len).to_owned();
                rest = new_rest;
                proof {
                    if j > 0 {
                        assert(result.deep_view() =~= old_dv.push(spec_trim(old_rest.subrange(
                            0,
                            j as int,
                        ))));
                        assert(spec_split_columns(old_rest) == seq![
                            spec_trim(old_rest.subrange(0, j as int)),
                        ] + spec_split_columns(rest@));
                        assert(old_dv + spec_split_columns(old_rest) =~= result.deep_view()
                            + spec_split_columns(rest@));
                    } else {
                        assert(old_rest.subrange(0, 0).len() == 0);
                        assert(spec_split_columns(old_rest) == spec_split_columns(rest@));
                    }
                }
            },
            None => {
                let ghost old_dv = result.deep_view();
                if rest_len > 0 {
                    let trimmed = trim_spaces(rest.as_str());
                    result.push(trimmed);
                    proof {
                        assert(spec_split_columns(rest@) == seq![spec_trim(rest@)]);
                        assert(result.deep_view() =~= old_dv + spec_split_columns(rest@));
                    }
                } else {
                    proof {
                        assert(spec_split_columns(rest@) =~= Seq::<Seq<char>>::empty());
                        assert(result.deep_view() =~= old_dv + spec_split_columns(rest@));
                    }
                }
                break ;
            },
        }
    }
    result
}

// ------------------------------------------------------------------
// Records and the inventory
// ------------------------------------------------------------------

/// The mapping that a sequence of key/value pairs builds up, later pairs
/// with the same key overwriting earlier ones.
pub open spec fn pairs_map<V: View>(s: Seq<(String, V)>) -> Map<Seq<char>, <V as View>::V>
    decreases s.len(),
{
    if s.len() == 0 {
        Map::empty()
    } else {
        pairs_map(s.drop_last()).insert(s.last().0@, s.last().1@)
    }
}

proof fn lemma_pairs_map_match<V: View>(s: Seq<(String, V)>, k: Seq<char>, i: int)
    requires
        0 <= i < s.len(),
        s[i].0@ == k,
        forall|j: int| i < j < s.len() ==> s[j].0@ != k,
    ensures
        pairs_map(s).contains_key(k),
        pairs_map(s)[k] == s[i].1@,
    decreases s.len(),
{
    if i < s.len() - 1 {
        lemma_pairs_map_match(s.drop_last(), k, i);
    }
}

proof fn lemma_pairs_map_absent<V: View>(s: Seq<(String, V)>, k: Seq<char>)
    requires
        forall|j: int| 0 <= j < s.len() ==> s[j].0@ != k,
    ensures
        !pairs_map(s).contains_key(k),
    decreases s.len(),
{
    if s.len() > 0 {
        lemma_pairs_map_absent(s.drop_last(), k);
    }
}

/// One row of the engine's image listing: a mapping from the column names
/// of the header row to this row's column values.
#[derive(Debug)]
pub struct InventoryRecord {
    fields: Vec<(String, String)>,
}

impl View for InventoryRecord {
    type V = Map<Seq<char>, Seq<char>>;

    closed spec fn view(&self) -> Map<Seq<char>, Seq<char>> {
        pairs_map(self.fields@)
    }
}

/// The record one data row yields: the header's column names matched
/// positionally against the row's columns, the shorter side cutting the
/// match short, a repeated column name keeping its rightmost value.
pub open spec fn spec_record_prefix(header: Seq<Seq<char>>, cols: Seq<Seq<char>>, n: int) -> Map<
    Seq<char>,
    Seq<char>,
>
    decreases n,
{
    if n <= 0 {
        Map::empty()
    } else {
        spec_record_prefix(header, cols, n - 1).insert(header[n - 1], cols[n - 1])
    }
}

/// See `spec_record_prefix`: the whole record of one data row.
pub open spec fn spec_record(header: Seq<Seq<char>>, cols: Seq<Seq<char>>) -> Map<
    Seq<char>,
    Seq<char>,
> {
    spec_record_prefix(
        header,
        cols,
        if header.len() <= cols.len() {
            header.len() as int
        } else {
            cols.len() as int
        },
    )
}

impl InventoryRecord {
    /// Builds the record of one data row from the header's column names
    /// and the row's column values.
    pub fn zip_record(header: &Vec<String>, cols: &Vec<String>) -> (r: InventoryRecord)
        ensures
            r@ == spec_record(header.deep_view(), cols.deep_view()),
    {
        let n = if header.len() <= cols.len() {
            header.len()
        } else {
            cols.len()
        };
        let mut fields: Vec<(String, String)> = Vec::new();
        let mut i: usize = 0;
        while i < n
            invariant
                n <= header@.len(),
                n <= cols@.len(),
                i <= n,
                pairs_map(fields@) == spec_record_prefix(
                    header.deep_view(),
                    cols.deep_view(),
                    i as int,
                ),
            decreases n - i,
        {
            let ghost old_fields = fields@;
            fields.push((header[i].clone(), cols[i].clone()));
            proof {
                assert(fields@.drop_last() =~= old_fields);
                assert(fields@.last().0@ == header.deep_view()[i as int]);
                assert(fields@.last().1@ == cols.deep_view()[i as int]);
            }
            i = i + 1;
        }
        InventoryRecord { fields }
    }

    /// Looks a column name up in this record.
    pub fn get(&self, key: &String) -> (r: Option<&String>)
        ensures
            (r matches Some(v) ==> self@.contains_key(key@) && v@ == self@[key@]),
            r is None ==> !self@.contains_key(key@),
    {
        let mut i: usize = self.fields.len();
        while i > 0
            invariant
                i <= self.fields@.len(),
                forall|j: int| i <= j < self.fields@.len() ==> self.fields@[j].0@ != key@,
            decreases i,
        {
            i = i - 1;
            if self.fields[i].0 == *key {
                proof {
                    lemma_pairs_map_match(self.fields@, key@, i as int);
                }
                return Some(&self.fields[i].1);
            }
        }
        proof {
            lemma_pairs_map_absent(self.fields@, key@);
        }
        None
    }

    /// Reports whether this record names the column `key`.
    pub fn contains_key(&self, key: &String) -> (r: bool)
        ensures
            r == self@.contains_key(key@),
    {
        match self.get(key) {
            Some(_) => true,
            None => false,
        }
    }
}

/// The engine's local store of images: a mapping from `repository:tag`
/// keys to the record of the row that reported them, the last row with a
/// given key winning.
#[derive(Debug)]
pub struct ImageInventory {
    entries: Vec<(String, InventoryRecord)>,
}

impl View for ImageInventory {
    type V = Map<Seq<char>, Map<Seq<char>, Seq<char>>>;

    closed spec fn view(&self) -> Map<Seq<char>, Map<Seq<char>, Seq<char>>> {
        pairs_map(self.entries@)
    }
}

impl ImageInventory {
    /// An inventory with no images.
    pub fn new() -> (r: ImageInventory)
        ensures
            r@ == Map::<Seq<char>, Map<Seq<char>, Seq<char>>>::empty(),
    {
        let r = ImageInventory { entries: Vec::new() };
        proof {
            assert(r@ =~= Map::<Seq<char>, Map<Seq<char>, Seq<char>>>::empty());
        }
        r
    }

    /// Records the row at `key`, replacing what an earlier row put there.
    pub fn insert(&mut self, key: String, record: InventoryRecord)
        ensures
            final(self)@ == old(self)@.insert(key@, record@),
    {
        let ghost old_entries = self.entries@;
        self.entries.push((key, record));
        proof {
            assert(self.entries@.drop_last() =~= old_entries);
        }
    }

    /// Looks a `repository:tag` key up in the inventory.
    pub fn get(&self, key: &String) -> (r: Option<&InventoryRecord>)
        ensures
            (r matches Some(v) ==> self@.contains_key(key@) && v@ == self@[key@]),
            r is None ==> !self@.contains_key(key@),
    {
        let mut i: usize = self.entries.len();
        while i > 0
            invariant
                i <= self.entries@.len(),
                forall|j: int| i <= j < self.entries@.len() ==> self.entries@[j].0@ != key@,
            decreases i,
        {
            i = i - 1;
            if self.entries[i].0 == *key {
                proof {
                    lemma_pairs_map_match(self.entries@, key@, i as int);
                }
                return Some(&self.entries[i].1);
            }
        }
        proof {
            lemma_pairs_map_absent(self.entries@, key@);
        }
        None
    }

    /// Reports whether the inventory holds an image at `key`.
    pub fn contains_key(&self, key: &String) -> (r: bool)
        ensures
            r == self@.contains_key(key@),
    {
        match self.get(key) {
            Some(_) => true,
            None => false,
        }
    }
}

// ------------------------------------------------------------------
// Parsing the whole listing
// ------------------------------------------------------------------

/// The inventory that the rows after the header build up: a row's record
/// joins the map at `repository:tag` when it has both of those columns,
/// and is dropped otherwise.
pub open spec fn spec_rows_map(header: Seq<Seq<char>>, lines: Seq<Seq<char>>, n: int) -> Map<
    Seq<char>,
    Map<Seq<char>, Seq<char>>,
>
    decreases n,
{
    if n <= 1 {
        Map::empty()
    } else {
        let m = spec_rows_map(header, lines, n - 1);
        let rec = spec_record(header, spec_split_columns(lines[n - 1]));
        if rec.contains_key("REPOSITORY"@) && rec.contains_key("TAG"@) {
            m.insert(rec["REPOSITORY"@] + ":"@ + rec["TAG"@], rec)
        } else {
            m
        }
    }
}

/// The inventory parsed out of the engine's whole listing: the first line
/// is the header, and every following line is one image row.
pub open spec fn spec_inventory_map(out: Seq<char>) -> Map<Seq<char>, Map<Seq<char>, Seq<char>>> {
    let ls = spec_lines(out);
    spec_rows_map(spec_split_columns(ls[0]), ls, ls.len() as int)
}

/// The message reported when the engine's listing command fails.
pub open spec fn spec_listing_failure_message(code: Option<i32>) -> Seq<char> {
    match code {
        Some(c) => "image listing failed with exit code "@ + spec_decimal_int(c as int) + "."@,
        None => "image listing failed."@,
    }
}

/// Turns one run of the engine's image-listing command into the inventory.
///
/// `success` and `code` say how the command exited and `output` is what it
/// printed. An unsuccessful exit, or output without even a header line, is
/// a container engine failure and yields no inventory at all; otherwise
/// every row of the listing is parsed against the header into the map.
///
/// The engine's padded tabular text is deliberately the interface here,
/// scraped by the run-of-spaces rule above: it is what the listing
/// command prints everywhere. An engine offering a structured listing
/// mode would make a sturdier source, and a caller that has one can
/// build the inventory from it instead; this parser carries the common,
/// unstructured case.
pub fn images_info(success: bool, code: Option<i32>, output: &str) -> (r: Result<
    ImageInventory,
    Error,
>)
    ensures
        (r matches Ok(inv) ==> success && spec_lines(output@).len() > 0 && inv@
            == spec_inventory_map(output@)),
        (r matches Err(e) ==> e.spec_kind() == ErrorKind::ContainerEngineFailure
            && e.spec_message() == (if !success {
            spec_listing_failure_message(code)
        } else {
            "image listing produced no header line."@
        })),
        r is Ok <==> (success && spec_lines(output@).len() > 0),
{
    if !success {
        let mut message = String::new();
        match code {
            Some(c) => {
                message.append("image listing failed with exit code ");
                message.append(i32_to_string(c).as_str());
                message.append(".");
            },
            None => {
                message.append("image listing failed.");
            },
        }
        proof {
            assert(message@ =~= spec_listing_failure_message(code));
        }
        return Err(Error::new(ErrorKind::ContainerEngineFailure, message.as_str()));
    }
    let lines = split_lines(output);
    if lines.len() == 0 {
        return Err(
            Error::new(ErrorKind::ContainerEngineFailure, "image listing produced no header line."),
        );
    }
    let header = split_columns(lines[0].as_str());
    let mut inv = ImageInventory::new();
    let mut li: usize = 1;
    proof {
        assert(inv@ =~= spec_rows_map(header.deep_view(), lines.deep_view(), 1));
    }
    while li < lines.len()
        invariant
            1 <= li <= lines@.len(),
            lines.deep_view() == spec_lines(output@),
            header.deep_view() == spec_split_columns(lines.deep_view()[0]),
            inv@ == spec_rows_map(header.deep_view(), lines.deep_view(), li as int),
        decreases lines@.len() - li,
    {
        let cols = split_columns(lines[li].as_str());
        let record = InventoryRecord::zip_record(&header, &cols);
        proof {
            assert(lines.deep_view()[li as int] == lines@[li as int]@);
            assert(record@ == spec_record(
                header.deep_view(),
                spec_split_columns(lines.deep_view()[li as int]),
            ));
        }
        let repo_key = "REPOSITORY".to_owned();
        let tag_key = "TAG".to_owned();
        let repo = record.get(&repo_key);
        let tag = record.get(&tag_key);
        match (repo, tag) {
            (Some(repo_value), Some(tag_value)) => {
                let mut key = String::new();
                key.append(repo_value.as_str());
                key.append(":");
                key.append(tag_value.as_str());
                proof {
                    assert(key@ =~= record@["REPOSITORY"@] + ":"@ + record@["TAG"@]);
                }
                inv.insert(key, record);
            },
            _ => {},
        }
        li = li + 1;
    }
    Ok(inv)
}

} // verus!
