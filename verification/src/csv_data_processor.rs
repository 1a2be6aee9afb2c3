//! The CSV writer's rules: what is written for an entry, given what was
//! found in it under each pattern.

use vstd::prelude::*;
use vstd::string::*;
use crate::application::same_text;
use crate::topic::strings_view;

verus! {

/// What was found under each pattern, as models.
pub open spec fn found_view(found: Seq<Option<String>>) -> Seq<Option<Seq<char>>> {
    Seq::new(
        found.len(),
        |i: int|
            match found[i] {
                Some(text) => Some(text@),
                None => None,
            },
    )
}

/// What was found in each entry under each pattern, as models.
pub open spec fn rows_view(rows: Seq<Vec<Option<String>>>) -> Seq<Seq<Option<Seq<char>>>> {
    Seq::new(rows.len(), |i: int| found_view(rows[i]@))
}

/// The cell for one pattern: what was found, or nothing where nothing was
/// found or where what was found is the empty list `[]`.
pub open spec fn cell_text(found: Option<Seq<char>>) -> Seq<char> {
    match found {
        Some(text) => if text == "[]"@ {
            Seq::empty()
        } else {
            text
        },
        None => Seq::empty(),
    }
}

/// The cells of a line, with a comma between each two.
pub open spec fn joined(found: Seq<Option<Seq<char>>>) -> Seq<char>
    decreases found.len(),
{
    if found.len() == 0 {
        Seq::empty()
    } else if found.len() == 1 {
        cell_text(found[0])
    } else {
        joined(found.drop_last()) + ","@ + cell_text(found.last())
    }
}

/// The line for one entry: its cells with commas between, and a line feed.
pub open spec fn line_text(found: Seq<Option<Seq<char>>>) -> Seq<char> {
    joined(found) + "\n"@
}

/// The lines for a list of entries, in the list's order.
pub open spec fn lines_text(rows: Seq<Seq<Option<Seq<char>>>>) -> Seq<Seq<char>> {
    Seq::new(rows.len(), |i: int| line_text(rows[i]))
}

/// A CSV writer: the patterns that make up the columns of a line, and the
/// handle the lines go to.
pub struct CsvDataProcessor<W> {
    handle: W,
    patterns: Vec<String>,
}

impl<W> CsvDataProcessor<W> {
    /// The handle the lines go to.
    pub closed spec fn sink(&self) -> W {
        self.handle
    }

    /// The patterns, one per column.
    pub closed spec fn columns(&self) -> Seq<Seq<char>> {
        strings_view(self.patterns@)
    }

    pub fn new(handle: W, patterns: Vec<String>) -> (processor: CsvDataProcessor<W>)
        ensures
            processor.sink() == handle,
            processor.columns() == strings_view(patterns@),
    {
        CsvDataProcessor { handle: handle, patterns: patterns }
    }

    pub fn handle(&self) -> (handle: &W)
        ensures
            *handle == self.sink(),
    {
        &self.handle
    }

    pub fn patterns(&self) -> (patterns: &Vec<String>)
        ensures
            strings_view(patterns@) == self.columns(),
    {
        &self.patterns
    }

    /// The cell for what was found under one pattern.
    pub fn cell(found: &Option<String>) -> (cell: &str)
        ensures
            cell@ == cell_text(
                match found {
                    Some(text) => Some(text@),
                    None => None,
                },
            ),
    {
        match found {
            Some(text) => if same_text(text.as_str(), "[]") {
                let empty = "";
                proof {
                    reveal_strlit("");
                }
                assert(empty@ =~= Seq::<char>::empty());
                empty
            } else {
                text.as_str()
            },
            None => {
                let empty = "";
                proof {
                    reveal_strlit("");
                }
                assert(empty@ =~= Seq::<char>::empty());
                empty
            },
        }
    }

    /// The line for one entry, from what was found in it under each pattern,
    /// in the order of the patterns.
    pub fn line(found: &Vec<Option<String>>) -> (line: String)
        ensures
            line@ == line_text(found_view(found@)),
    {
        let ghost models = found_view(found@);
        let mut line = String::new();
        let mut i: usize = 0;
        assert(models.take(0) =~= Seq::empty());
        while i < found.len()
            invariant
                i <= found.len(),
                models == found_view(found@),
                line@ == joined(models.take(i as int)),
            decreases found.len() - i,
        {
            let ghost so_far = line@;
            if i > 0 {
                line.append(",");
            }
            line.append(Self::cell(&found[i]));
            proof {
                let longer = models.take(i + 1);
                assert(longer.drop_last() =~= models.take(i as int));
                assert(longer.last() == models[i as int]);
                if i == 0 {
                    assert(so_far + cell_text(models[0]) =~= cell_text(models[0]));
                }
            }
            i = i + 1;
        }
        assert(models.take(i as int) =~= models);
        line.append("\n");
        line
    }

    /// The lines for the entries of a payload, one per entry and in their
    /// order, from what was found in each entry under each pattern.
    pub fn process_entries(&self, entries: &Vec<Vec<Option<String>>>) -> (lines: Vec<String>)
        ensures
            strings_view(lines@) == lines_text(rows_view(entries@)),
    {
        let mut lines: Vec<String> = Vec::new();
        let mut i: usize = 0;
        while i < entries.len()
            invariant
                i <= entries.len(),
                lines@.len() == i,
                forall|j: int|
                    0 <= j < i ==> (#[trigger] lines@[j])@ == line_text(found_view(entries@[j]@)),
            decreases entries.len() - i,
        {
            lines.push(Self::line(&entries[i]));
            i = i + 1;
        }
        assert(strings_view(lines@) =~= lines_text(rows_view(entries@)));
        lines
    }
}

} // verus!
