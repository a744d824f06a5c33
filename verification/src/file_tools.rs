//! The text of the settings file and of the log, apart from the files
//! that hold them.

use crate::text::chars_of;
use crate::text::joined;
use crate::text::pieces;
use crate::text::split;
use crate::text::trim;
use crate::text::trimmed;
use vstd::prelude::*;
use vstd::string::StringExecFns;

verus! {

/// The settings that a run of lines holds, in order. A line with exactly
/// one `=` is a setting: the name before it and the value after it, both
/// without the white space around them. Any other line is passed over.
pub open spec fn settings_of(lines: Seq<Seq<char>>) -> Seq<(Seq<char>, Seq<char>)>
    decreases lines.len(),
{
    if lines.len() == 0 {
        Seq::empty()
    } else {
        let before = settings_of(lines.drop_last());
        let vals = split(lines.last(), '=');
        if vals.len() == 2 {
            before.push((trimmed(vals[0]), trimmed(vals[1])))
        } else {
            before
        }
    }
}

/// The settings that a text holds, one line after the other.
pub open spec fn settings(contents: Seq<char>) -> Seq<(Seq<char>, Seq<char>)> {
    settings_of(split(contents, '\n'))
}

/// Pairs of strings as pairs of their characters.
pub open spec fn pairs(v: Seq<(String, String)>) -> Seq<(Seq<char>, Seq<char>)> {
    Seq::new(v.len(), |i: int| (v[i].0@, v[i].1@))
}

/// Strings as their characters.
pub open spec fn texts(v: Seq<String>) -> Seq<Seq<char>> {
    Seq::new(v.len(), |i: int| v[i]@)
}

/// Reads the settings out of the text of a settings file. Where a name
/// occurs twice, both settings are returned, the later one last.
pub fn parse_ini(contents: &str) -> (data: Vec<(String, String)>)
    ensures
        pairs(data@) == settings(contents@),
{
    let chars = chars_of(contents);
    let lines = pieces(&chars, 0, chars.len(), '\n');
    assert(chars@.subrange(0, chars@.len() as int) == chars@);
    let ghost all = split(chars@, '\n');

    let mut data: Vec<(String, String)> = Vec::new();
    let mut k: usize = 0;
    while k < lines.len()
        invariant
            k <= lines@.len(),
            chars@ == contents@,
            all == split(chars@, '\n'),
            lines@.len() == all.len(),
            forall|j: int|
                0 <= j < lines@.len() ==> 0 <= (#[trigger] lines@[j]).0 <= lines@[j].1
                    <= chars@.len() && chars@.subrange(lines@[j].0 as int, lines@[j].1 as int)
                    == all[j],
            pairs(data@) == settings_of(all.take(k as int)),
        decreases lines@.len() - k,
    {
        let line = lines[k];
        let vals = pieces(&chars, line.0, line.1, '=');
        proof {
            assert(all.take(k + 1).drop_last() == all.take(k as int));
            assert(all.take(k + 1).last() == all[k as int]);
        }
        if vals.len() == 2 {
            let name = trim(&chars, vals[0].0, vals[0].1);
            let value = trim(&chars, vals[1].0, vals[1].1);
            let ghost before = pairs(data@);
            data.push(
                (
                    contents.substring_char(name.0, name.1).to_owned(),
                    contents.substring_char(value.0, value.1).to_owned(),
                ),
            );
            assert(pairs(data@) =~= before.push(
                (trimmed(split(all[k as int], '=')[0]), trimmed(split(all[k as int], '=')[1])),
            ));
        }
        k += 1;
    }
    assert(all.take(k as int) == all);
    data
}

/// Where a line of the log stands: whether an entry has been written to
/// it since it was begun.
#[derive(Debug, Clone, Copy, PartialEq, Eq, Structural)]
pub struct Line {
    pub is_line: bool,
}

impl Line {
    /// A line without entries.
    pub fn new() -> (l: Line)
        ensures
            !l.is_line,
    {
        Line { is_line: false }
    }

    /// The text to write for the next entry: the entry itself at the
    /// start of a line, and after a comma and a space behind another.
    pub fn write(&mut self, data: &str) -> (out: String)
        ensures
            final(self).is_line,
            out@ == if old(self).is_line {
                ", "@ + data@
            } else {
                data@
            },
    {
        if self.is_line {
            String::from_str(", ").concat(data)
        } else {
            self.is_line = true;
            data.to_owned()
        }
    }

    /// The text to write for a list of values as one entry: the values
    /// between square brackets, a comma and a space between any two.
    pub fn write_vec(&mut self, data: &Vec<String>) -> (out: String)
        requires
            data@.len() > 0,
        ensures
            final(self).is_line,
            out@ == if old(self).is_line {
                ", "@ + bracketed(texts(data@))
            } else {
                bracketed(texts(data@))
            },
    {
        let mut out: String = String::from_str("[");
        let mut i: usize = 0;
        while i < data.len() - 1
            invariant
                0 < data@.len(),
                i <= data@.len() - 1,
                out@ == "["@ + separated(texts(data@).take(i as int)),
            decreases data@.len() - i,
        {
            proof {
                let now = texts(data@).take(i + 1);
                assert(now.drop_last() == texts(data@).take(i as int));
                assert(now.last() == data@[i as int]@);
                lemma_separated_step(now);
            }
            out.append(data[i].as_str());
            out.append(", ");
            i += 1;
        }
        out.append(data[data.len() - 1].as_str());
        out.append("]");
        proof {
            let all = texts(data@);
            assert(all.drop_last() == all.take(i as int));
            lemma_separated_is_joined(all);
            assert(out@ =~= bracketed(all));
        }
        self.write(out.as_str())
    }

    /// The text that ends the line, after which a new line begins.
    pub fn end_cycle(&mut self) -> (out: String)
        ensures
            !final(self).is_line,
            out@ == "\n"@,
    {
        self.is_line = false;
        String::from_str("\n")
    }
}

/// The values between square brackets, a comma and a space between any
/// two of them.
pub open spec fn bracketed(items: Seq<Seq<char>>) -> Seq<char> {
    "["@ + joined(items, ", "@) + "]"@
}

/// Every value followed by a comma and a space.
pub open spec fn separated(items: Seq<Seq<char>>) -> Seq<char>
    decreases items.len(),
{
    if items.len() == 0 {
        Seq::empty()
    } else {
        separated(items.drop_last()) + items.last() + ", "@
    }
}

/// One more value adds itself and a separator to the text so far.
proof fn lemma_separated_step(items: Seq<Seq<char>>)
    requires
        items.len() > 0,
    ensures
        "["@ + separated(items) == "["@ + separated(items.drop_last()) + items.last() + ", "@,
{
    assert("["@ + separated(items) =~= "["@ + separated(items.drop_last()) + items.last() + ", "@);
}

/// All values but the last with their separators, and then the last, are
/// the values joined.
proof fn lemma_separated_is_joined(items: Seq<Seq<char>>)
    requires
        items.len() > 0,
    ensures
        separated(items.drop_last()) + items.last() == joined(items, ", "@),
    decreases items.len(),
{
    if items.len() == 1 {
        assert(separated(items.drop_last()) + items.last() =~= joined(items, ", "@));
    } else {
        let rest = items.drop_last();
        lemma_separated_is_joined(rest);
        assert(separated(rest) =~= separated(rest.drop_last()) + rest.last() + ", "@);
        assert(separated(rest) + items.last() =~= joined(rest, ", "@) + ", "@ + items.last());
    }
}

} // verus!
