//! The loaded input file: raw delimited text split into a header line, a
//! sample row and a body, together with the operations that turn those
//! pieces into SQL-ready fragments.

use vstd::prelude::*;

use crate::column::classify_cell;
use crate::column::spec_type_vector;
use crate::column::sql_type_name;
use crate::column::sql_type_name_string;
use crate::column::ColumnType;
use crate::reform::reform_header_line;
use crate::reform::reform_row;
use crate::reform::reformed_header;
use crate::reform::reformed_row;
use crate::text::contains_char;
use crate::text::spec_lines;
use crate::text::split_cells;
use crate::text::split_lines;
use crate::text::split_on;

verus! {

/// The kind of delimited file, fixed once when the file is loaded and
/// passed to every later stage.
#[derive(Clone, Copy, PartialEq, Eq, Structural, Debug)]
pub enum Filetype {
    Csv,
    Tsv,
}

/// The delimiter a file kind implies: a comma for CSV, a tab for TSV.
pub open spec fn sep_char(ft: Filetype) -> char {
    match ft {
        Filetype::Csv => ',',
        Filetype::Tsv => '\t',
    }
}

/// Why a file could not be taken in.
#[derive(Clone, Copy, PartialEq, Eq, Structural, Debug)]
pub enum LoadError {
    /// The path names neither a CSV nor a TSV file.
    UnrecognizedExtension,
    /// The text has no header line or no data row after it.
    MissingRows,
    /// The text nowhere contains the delimiter its file kind implies.
    MissingSeparator,
}

/// Why the body could not be reformed.
#[derive(Clone, Copy, PartialEq, Eq, Structural, Debug)]
pub enum ReformError {
    /// The data row at this index has a different column count than the
    /// header.
    RaggedRow(usize),
}

/// Whether position `i` of `s` starts a dot followed by the three
/// extension letters, the first of which is `lo` or `up`, then `s`/`S`,
/// then `v`/`V`.
pub open spec fn marker_at(s: Seq<char>, i: int, lo: char, up: char) -> bool {
    &&& s[i] == '.'
    &&& (s[i + 1] == lo || s[i + 1] == up)
    &&& (s[i + 2] == 's' || s[i + 2] == 'S')
    &&& (s[i + 3] == 'v' || s[i + 3] == 'V')
}

/// Whether `s` contains the extension marker anywhere, ignoring ASCII
/// case.
pub open spec fn has_marker(s: Seq<char>, lo: char, up: char) -> bool {
    exists|i: int| 0 <= i && i + 4 <= s.len() && marker_at(s, i, lo, up)
}

impl Filetype {
    /// Chooses the file kind from the file path: a path containing `.csv`
    /// anywhere (ignoring ASCII case) is CSV; otherwise one containing
    /// `.tsv` is TSV; any other path is rejected.
    pub fn from_path(path: &str) -> (r: Result<Filetype, LoadError>)
        ensures
            match r {
                Ok(Filetype::Csv) => has_marker(path@, 'c', 'C'),
                Ok(Filetype::Tsv) => !has_marker(path@, 'c', 'C') && has_marker(path@, 't', 'T'),
                Err(e) => {
                    &&& e is UnrecognizedExtension
                    &&& !has_marker(path@, 'c', 'C')
                    &&& !has_marker(path@, 't', 'T')
                },
            },
    {
        let n = path.unicode_len();
        let mut found_csv = false;
        let mut found_tsv = false;
        let mut i: usize = 0;
        while n >= 4 && i <= n - 4
            invariant
                n == path@.len(),
                i <= n,
                found_csv <==> exists|k: int|
                    0 <= k < i && k + 4 <= n && marker_at(path@, k, 'c', 'C'),
                found_tsv <==> exists|k: int|
                    0 <= k < i && k + 4 <= n && marker_at(path@, k, 't', 'T'),
            decreases n - i,
        {
            let c0 = path.get_char(i);
            let c1 = path.get_char(i + 1);
            let c2 = path.get_char(i + 2);
            let c3 = path.get_char(i + 3);
            if c0 == '.' && (c2 == 's' || c2 == 'S') && (c3 == 'v' || c3 == 'V') {
                if c1 == 'c' || c1 == 'C' {
                    found_csv = true;
                    assert(marker_at(path@, i as int, 'c', 'C'));
                }
                if c1 == 't' || c1 == 'T' {
                    found_tsv = true;
                    assert(marker_at(path@, i as int, 't', 'T'));
                }
            }
            i = i + 1;
        }
        if found_csv {
            Ok(Filetype::Csv)
        } else if found_tsv {
            Ok(Filetype::Tsv)
        } else {
            Err(LoadError::UnrecognizedExtension)
        }
    }
}

/// The mathematical content of an `InputFile`: the loaded text and the
/// header, sample row and body derived from it.
pub struct InputFileView {
    pub text: Seq<char>,
    pub header: Seq<char>,
    pub first_row: Seq<char>,
    pub body: Seq<Seq<char>>,
    pub filetype: Filetype,
    /// The column count of the header as it was loaded. Reforming the
    /// header rewrites its delimiters, so validation measures rows
    /// against this count, fixed at load time.
    pub header_cols: nat,
}

/// A delimited text file held in memory: its raw text, its header line,
/// the first data row (the sample for type inference), all data rows, and
/// its file kind.
#[derive(Debug)]
pub struct InputFile {
    text: String,
    header: String,
    first_row: String,
    body: Vec<String>,
    filetype: Filetype,
    header_cols: usize,
}

impl View for InputFile {
    type V = InputFileView;

    closed spec fn view(&self) -> InputFileView {
        InputFileView {
            text: self.text@,
            header: self.header@,
            first_row: self.first_row@,
            body: self.body@.map_values(|r: String| r@),
            filetype: self.filetype,
            header_cols: self.header_cols as nat,
        }
    }
}

impl InputFile {
    /// Builds an input file from its raw text and file kind. The first
    /// line becomes the header, the remaining lines the body, and the
    /// first body line the sample row. The text must hold at least a
    /// header and one data row, and must contain the delimiter its file
    /// kind implies; otherwise the matching error comes back.
    pub fn new(text: String, filetype: Filetype) -> (r: Result<InputFile, LoadError>)
        ensures
            match r {
                Ok(f) => {
                    &&& spec_lines(text@).len() >= 2
                    &&& text@.contains(sep_char(filetype))
                    &&& f@.text == text@
                    &&& f@.header == spec_lines(text@)[0]
                    &&& f@.first_row == spec_lines(text@)[1]
                    &&& f@.body == spec_lines(text@).drop_first()
                    &&& f@.filetype == filetype
                    &&& f@.header_cols == split_on(
                        spec_lines(text@)[0],
                        sep_char(filetype),
                    ).len()
                },
                Err(e) => {
                    &&& (e is MissingRows || e is MissingSeparator)
                    &&& (e is MissingRows <==> spec_lines(text@).len() < 2)
                    &&& (e is MissingSeparator <==> spec_lines(text@).len() >= 2 && !text@.contains(
                        sep_char(filetype),
                    ))
                },
            },
    {
        let ghost t = text@;
        let lines = split_lines(text.as_str());
        if lines.len() < 2 {
            return Err(LoadError::MissingRows);
        }
        let sep = match filetype {
            Filetype::Csv => ',',
            Filetype::Tsv => '\t',
        };
        if !contains_char(text.as_str(), sep) {
            return Err(LoadError::MissingSeparator);
        }
        let header = lines[0].clone();
        let header_cols = split_cells(header.as_str(), sep).len();
        let first_row = lines[1].clone();
        let mut body: Vec<String> = Vec::new();
        let mut i: usize = 1;
        while i < lines.len()
            invariant
                lines@.len() == spec_lines(t).len(),
                forall|k: int| 0 <= k < lines@.len() ==> lines@[k]@ == spec_lines(t)[k],
                1 <= i <= lines@.len(),
                body@.len() == i - 1,
                forall|k: int| 0 <= k < body@.len() ==> body@[k]@ == spec_lines(t)[k + 1],
            decreases lines@.len() - i,
        {
            body.push(lines[i].clone());
            i = i + 1;
        }
        let f = InputFile { text, header, first_row, body, filetype, header_cols };
        proof {
            assert(f@.body =~= spec_lines(t).drop_first());
        }
        Ok(f)
    }

    /// The delimiter character of this file's kind.
    pub fn separator_char(&self) -> (c: char)
        ensures
            c == sep_char(self@.filetype),
    {
        match self.filetype {
            Filetype::Csv => ',',
            Filetype::Tsv => '\t',
        }
    }

    /// Rewrites the header line into backtick-quoted, comma-joined
    /// identifiers; everything else is untouched.
    pub fn reform_header(&mut self)
        ensures
            final (self)@.header == reformed_header(
                old(self)@.header,
                sep_char(old(self)@.filetype),
            ),
            final (self)@.text == old(self)@.text,
            final (self)@.first_row == old(self)@.first_row,
            final (self)@.body == old(self)@.body,
            final (self)@.filetype == old(self)@.filetype,
            final (self)@.header_cols == old(self)@.header_cols,
    {
        let sep = self.separator_char();
        let new_header = reform_header_line(self.header.as_str(), sep);
        self.header = new_header;
    }

    /// The type vector of the sample row, as classifications.
    pub(crate) fn type_vector(&self) -> (r: Vec<ColumnType>)
        ensures
            r@ == spec_type_vector(self@.first_row, sep_char(self@.filetype)),
    {
        let sep = self.separator_char();
        let cells = split_cells(self.first_row.as_str(), sep);
        let mut out: Vec<ColumnType> = Vec::new();
        let mut i: usize = 0;
        while i < cells.len()
            invariant
                cells@.len() == split_on(self@.first_row, sep_char(self@.filetype)).len(),
                forall|k: int|
                    0 <= k < cells@.len() ==> cells@[k]@ == split_on(
                        self@.first_row,
                        sep_char(self@.filetype),
                    )[k],
                i <= cells@.len(),
                out@.len() == i,
                forall|k: int|
                    0 <= k < i ==> out@[k] == spec_type_vector(
                        self@.first_row,
                        sep_char(self@.filetype),
                    )[k],
            decreases cells@.len() - i,
        {
            out.push(classify_cell(cells[i].as_str()));
            i = i + 1;
        }
        proof {
            assert(out@ =~= spec_type_vector(self@.first_row, sep_char(self@.filetype)));
        }
        out
    }

    /// Infers the column data types from the sample row: one SQL type name
    /// per cell — `INT` for an integer-valued number, `FLOAT` for another
    /// number, `VARCHAR(20)` for anything else.
    pub fn infer_col_data_types(&self) -> (r: Vec<String>)
        ensures
            r@.len() == spec_type_vector(self@.first_row, sep_char(self@.filetype)).len(),
            forall|i: int|
                0 <= i < r@.len() ==> r@[i]@ == sql_type_name(
                    spec_type_vector(self@.first_row, sep_char(self@.filetype))[i],
                ),
    {
        let types = self.type_vector();
        let mut out: Vec<String> = Vec::new();
        let mut i: usize = 0;
        while i < types.len()
            invariant
                types@ == spec_type_vector(self@.first_row, sep_char(self@.filetype)),
                i <= types@.len(),
                out@.len() == i,
                forall|k: int| 0 <= k < i ==> out@[k]@ == sql_type_name(types@[k]),
            decreases types@.len() - i,
        {
            out.push(sql_type_name_string(types[i]));
            i = i + 1;
        }
        out
    }

    /// Rewrites every data row into SQL literal form against the type
    /// vector inferred from the sample row: text cells are single-quoted,
    /// numeric cells stay bare, and cells are joined with commas. The
    /// sample row itself keeps its original text.
    ///
    /// A ragged file is rejected before anything is rewritten: when some
    /// data row's column count differs from the header's column count as
    /// loaded, the dedicated error names the first such row and the file
    /// is left unchanged.
    pub fn reform_body(&mut self) -> (r: Result<(), ReformError>)
        ensures
            match r {
                Ok(_) => {
                    &&& forall|k: int|
                        0 <= k < old(self)@.body.len() ==> split_on(
                            old(self)@.body[k],
                            sep_char(old(self)@.filetype),
                        ).len() == old(self)@.header_cols
                    &&& final (self)@.body.len() == old(self)@.body.len()
                    &&& forall|i: int|
                        0 <= i < old(self)@.body.len() ==> final (self)@.body[i] == reformed_row(
                            old(self)@.body[i],
                            spec_type_vector(old(self)@.first_row, sep_char(old(self)@.filetype)),
                            sep_char(old(self)@.filetype),
                        )
                    &&& final (self)@.text == old(self)@.text
                    &&& final (self)@.header == old(self)@.header
                    &&& final (self)@.first_row == old(self)@.first_row
                    &&& final (self)@.filetype == old(self)@.filetype
                    &&& final (self)@.header_cols == old(self)@.header_cols
                },
                Err(ReformError::RaggedRow(i)) => {
                    &&& 0 <= i < old(self)@.body.len()
                    &&& split_on(old(self)@.body[i as int], sep_char(old(self)@.filetype)).len()
                        != old(self)@.header_cols
                    &&& forall|k: int|
                        0 <= k < i ==> split_on(old(self)@.body[k], sep_char(old(self)@.filetype)).len()
                            == old(self)@.header_cols
                    &&& *final (self) == *old(self)
                },
            },
    {
        if let Some(i) = self.find_ragged_row() {
            return Err(ReformError::RaggedRow(i));
        }
        let types = self.type_vector();
        let sep = self.separator_char();
        let mut new_body: Vec<String> = Vec::new();
        let mut i: usize = 0;
        while i < self.body.len()
            invariant
                *self == *old(self),
                types@ == spec_type_vector(self@.first_row, sep_char(self@.filetype)),
                sep == sep_char(self@.filetype),
                i <= self@.body.len(),
                new_body@.len() == i,
                forall|k: int|
                    0 <= k < i ==> new_body@[k]@ == reformed_row(self@.body[k], types@, sep),
            decreases self@.body.len() - i,
        {
            new_body.push(reform_row(self.body[i].as_str(), &types, sep));
            i = i + 1;
        }
        self.body = new_body;
        Ok(())
    }

    /// Explicit validation of the column-count invariant: every data row
    /// should have exactly as many cells as the header had when the file
    /// was loaded. Returns the index of the first data row whose cell
    /// count differs, or nothing when the file is well formed.
    /// `reform_body` consults this before rewriting anything and fails on
    /// the row it names.
    pub fn find_ragged_row(&self) -> (r: Option<usize>)
        ensures
            match r {
                Some(i) => {
                    &&& 0 <= i < self@.body.len()
                    &&& split_on(self@.body[i as int], sep_char(self@.filetype)).len()
                        != self@.header_cols
                    &&& forall|k: int|
                        0 <= k < i ==> split_on(self@.body[k], sep_char(self@.filetype)).len()
                            == self@.header_cols
                },
                None => forall|k: int|
                    0 <= k < self@.body.len() ==> split_on(
                        self@.body[k],
                        sep_char(self@.filetype),
                    ).len() == self@.header_cols,
            },
    {
        let sep = self.separator_char();
        let hn = self.header_cols;
        let mut i: usize = 0;
        while i < self.body.len()
            invariant
                hn == self@.header_cols,
                sep == sep_char(self@.filetype),
                i <= self@.body.len(),
                forall|k: int|
                    0 <= k < i ==> split_on(self@.body[k], sep_char(self@.filetype)).len()
                        == self@.header_cols,
            decreases self@.body.len() - i,
        {
            let row_cells = split_cells(self.body[i].as_str(), sep);
            if row_cells.len() != hn {
                return Some(i);
            }
            i = i + 1;
        }
        None
    }

    /// The raw text the file was loaded from.
    pub fn text(&self) -> (r: &String)
        ensures
            r@ == self@.text,
    {
        &self.text
    }

    /// The header line in its current form.
    pub fn header(&self) -> (r: &String)
        ensures
            r@ == self@.header,
    {
        &self.header
    }

    /// The sample row used for type inference.
    pub fn first_row(&self) -> (r: &String)
        ensures
            r@ == self@.first_row,
    {
        &self.first_row
    }

    /// The data rows in their current form.
    pub fn body(&self) -> (r: &Vec<String>)
        ensures
            r@.len() == self@.body.len(),
            forall|i: int| 0 <= i < r@.len() ==> r@[i]@ == self@.body[i],
    {
        &self.body
    }

    /// The file kind chosen when the file was loaded.
    pub fn filetype(&self) -> (r: Filetype)
        ensures
            r == self@.filetype,
    {
        self.filetype
    }
}

} // verus!
