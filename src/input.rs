//! Which lines of a TIE text carry a sample: every line, trimmed, that is
//! neither blank nor a comment (starting with `#` or `//`). Turning the text of
//! such a line into a number is left to the caller.
use vstd::prelude::*;

verus! {

/// What `str::lines` returns for a text.
pub uninterp spec fn lines_of(s: Seq<char>) -> Seq<Seq<char>>;

/// What `str::trim` returns for a text.
pub uninterp spec fn trim_of(s: Seq<char>) -> Seq<char>;

/// Relies on `str::lines`: the lines of `input`, without their line endings.
#[verifier::external_body]
fn split_lines(input: &str) -> (r: Vec<&str>)
    ensures
        r@.map_values(|l: &str| l@) == lines_of(input@),
{
    input.lines().collect()
}

/// Relies on `str::trim`: `line` without leading and trailing whitespace.
#[verifier::external_body]
fn trim(line: &str) -> (r: &str)
    ensures
        r@ == trim_of(line@),
{
    line.trim()
}

/// A line of text that carries a sample.
#[derive(Debug, PartialEq, Eq)]
pub struct DataLine {
    /// Its place in the text, counted from 1.
    pub number: usize,
    /// The line as it stands in the text.
    pub raw: String,
    /// The line without leading and trailing whitespace: the sample's text.
    pub text: String,
}

impl View for DataLine {
    type V = (int, Seq<char>, Seq<char>);

    open spec fn view(&self) -> Self::V {
        (self.number as int, self.raw@, self.text@)
    }
}

/// A trimmed line is a sample's text unless it is empty or a comment.
pub open spec fn is_data_text(t: Seq<char>) -> bool {
    &&& t.len() > 0
    &&& t[0] != '#'
    &&& !(t.len() >= 2 && t[0] == '/' && t[1] == '/')
}

/// The lines of `lines` that carry a sample, in order, each with its number
/// (counted from 1), itself and its trimmed text.
pub open spec fn data_lines(lines: Seq<Seq<char>>) -> Seq<(int, Seq<char>, Seq<char>)>
    decreases lines.len(),
{
    if lines.len() == 0 {
        seq![]
    } else {
        let k = lines.len() - 1;
        let earlier = data_lines(lines.drop_last());
        if is_data_text(trim_of(lines[k])) {
            earlier.push((k + 1, lines[k], trim_of(lines[k])))
        } else {
            earlier
        }
    }
}

/// Whether the trimmed line `text` carries a sample: it is not empty and
/// starts with neither `#` nor `//`.
pub fn is_tie_data(text: &str) -> (r: bool)
    ensures
        r == is_data_text(text@),
{
    broadcast use vstd::string::axiom_spec_iter, vstd::string::next_postcondition;

    let mut chars = text.chars();
    let first = chars.next();
    let second = chars.next();
    match first {
        None => false,
        Some(c) => {
            if c == '#' {
                false
            } else if c == '/' {
                match second {
                    Some(d) => d != '/',
                    None => true,
                }
            } else {
                true
            }
        },
    }
}

/// The lines of `lines` that carry a sample, each with its number (counted
/// from 1), itself and its trimmed text.
pub fn select_data_lines(lines: &[&str]) -> (r: Vec<DataLine>)
    ensures
        r@.map_values(|d: DataLine| d@) == data_lines(lines@.map_values(|l: &str| l@)),
{
    let ghost all = lines@.map_values(|l: &str| l@);
    let mut selected: Vec<DataLine> = Vec::new();
    let mut i: usize = 0;
    while i < lines.len()
        invariant
            all == lines@.map_values(|l: &str| l@),
            i <= lines@.len(),
            selected@.map_values(|d: DataLine| d@) == data_lines(all.take(i as int)),
        decreases lines@.len() - i,
    {
        let line = lines[i];
        let text = trim(line);
        proof {
            assert(all.take(i + 1).drop_last() == all.take(i as int));
        }
        if is_tie_data(text) {
            let entry = DataLine { number: i + 1, raw: line.to_string(), text: text.to_string() };
            selected.push(entry);
            proof {
                assert(selected@.map_values(|d: DataLine| d@) == data_lines(all.take(i + 1)));
            }
        }
        i = i + 1;
    }
    proof {
        assert(all.take(lines@.len() as int) == all);
    }
    selected
}

/// The lines of the TIE text `input` that carry a sample, each with its
/// number (counted from 1), itself and its trimmed text.
pub fn tie_data_lines(input: &str) -> (r: Vec<DataLine>)
    ensures
        r@.map_values(|d: DataLine| d@) == data_lines(lines_of(input@)),
{
    let lines = split_lines(input);
    select_data_lines(lines.as_slice())
}

} // verus!
