//! String tables: sections whose bytes are null-terminated strings, found
//! by the offset at which they start.

use std::collections::HashMap;
use vstd::prelude::*;
use vstd::slice::slice_subrange;

verus! {

broadcast use vstd::std_specs::hash::group_hash_axioms;

/// The text that `String::from_utf8_lossy` makes of `bytes`: their UTF-8
/// decoding, with U+FFFD in place of each ill-formed sequence.
pub uninterp spec fn utf8_lossy(bytes: Seq<u8>) -> Seq<char>;

/// Calls `String::from_utf8_lossy` and takes the text as an owned `String`.
/// The contract names the result and claims nothing more: that the text is a
/// function of the bytes alone.
#[verifier::external_body]
fn decode_lossy(bytes: &[u8]) -> (text: String)
    ensures
        text@ == utf8_lossy(bytes@),
{
    String::from_utf8_lossy(bytes).into_owned()
}

/// The text of a run of string bytes: nothing for no bytes, else their lossy
/// UTF-8 decoding.
pub open spec fn run_text(run: Seq<u8>) -> Seq<char> {
    if run.len() == 0 {
        Seq::empty()
    } else {
        utf8_lossy(run)
    }
}

/// The index of the first null byte at or after `from`, or the length of
/// `bytes` if there is none.
pub open spec fn first_nul(bytes: Seq<u8>, from: int) -> int
    decreases bytes.len() - from,
{
    if from < 0 || from >= bytes.len() {
        bytes.len() as int
    } else if bytes[from] == 0 {
        from
    } else {
        first_nul(bytes, from + 1)
    }
}

/// What `first_nul` finds: no null byte lies before it, and one lies at it
/// unless the bytes ran out.
pub proof fn lemma_first_nul(bytes: Seq<u8>, from: int)
    requires
        0 <= from <= bytes.len(),
    ensures
        from <= first_nul(bytes, from) <= bytes.len(),
        first_nul(bytes, from) < bytes.len() ==> bytes[first_nul(bytes, from)] == 0,
        forall|j: int| from <= j < first_nul(bytes, from) ==> bytes[j] != 0,
    decreases bytes.len() - from,
{
    if from < bytes.len() && bytes[from] != 0 {
        lemma_first_nul(bytes, from + 1);
    }
}

/// Skipping bytes that are not null does not change which null byte comes
/// first.
pub proof fn lemma_first_nul_skip(bytes: Seq<u8>, from: int, to: int)
    requires
        0 <= from <= to <= bytes.len(),
        forall|j: int| from <= j < to ==> bytes[j] != 0,
    ensures
        first_nul(bytes, from) == first_nul(bytes, to),
    decreases to - from,
{
    if from < to {
        lemma_first_nul_skip(bytes, from + 1, to);
    }
}

/// Whether a string of the table `bytes` starts at `offset` and ends before
/// `limit`: the byte before it is a terminator and another terminator, before
/// `limit`, closes it.
pub open spec fn run_closes_before(bytes: Seq<u8>, offset: int, limit: int) -> bool {
    &&& 0 < offset < bytes.len()
    &&& bytes[offset - 1] == 0
    &&& first_nul(bytes, offset) < limit
}

/// Whether a string of the table `bytes` starts at `offset`: the byte before
/// it is a terminator and another terminator closes it.
pub open spec fn is_run_start(bytes: Seq<u8>, offset: int) -> bool {
    run_closes_before(bytes, offset, bytes.len() as int)
}

/// The index that a string table's bytes stand for. Offset 0 always holds
/// the empty string; every other entry is a string that starts right after
/// one terminator and ends before the next.
pub open spec fn string_table_of(bytes: Seq<u8>) -> Map<int, Seq<char>> {
    Map::new(
        |offset: int| offset == 0 || is_run_start(bytes, offset),
        |offset: int|
            if offset == 0 {
                Seq::empty()
            } else {
                run_text(bytes.subrange(offset, first_nul(bytes, offset)))
            },
    )
}

/// Reads the string that the string table `bytes` holds at offset `start`.
///
/// Offset 0 always gives the empty string. Any other offset gives a string
/// only where one starts, right behind a terminator, and a terminator
/// closes it; an offset inside a string, behind the last terminator or
/// outside the bytes gives none.
pub fn read_string(bytes: &[u8], start: usize) -> (result: Option<String>)
    ensures
        match result {
            Some(text) => string_table_of(bytes@).contains_key(start as int) && text@
                == string_table_of(bytes@)[start as int],
            None => !string_table_of(bytes@).contains_key(start as int),
        },
{
    if start == 0 {
        return Some(String::new());
    }
    if start >= bytes.len() || bytes[start - 1] != 0 {
        return None;
    }
    let mut i: usize = start;
    while i < bytes.len()
        invariant
            0 < start <= i <= bytes@.len(),
            start < bytes@.len(),
            bytes@[start - 1] == 0,
            forall|j: int| start <= j < i ==> bytes@[j] != 0,
        decreases bytes@.len() - i,
    {
        if bytes[i] == 0 {
            proof {
                lemma_first_nul_skip(bytes@, start as int, i as int);
                assert(first_nul(bytes@, i as int) == i);
            }
            let text = if i == start {
                String::new()
            } else {
                decode_lossy(slice_subrange(bytes, start, i))
            };
            return Some(text);
        }
        i = i + 1;
    }
    proof {
        lemma_first_nul_skip(bytes@, start as int, i as int);
    }
    None
}

/// An index from the offsets at which strings start to the strings.
pub struct StringTable {
    strings: HashMap<usize, String>,
}

impl View for StringTable {
    type V = Map<int, Seq<char>>;

    closed spec fn view(&self) -> Map<int, Seq<char>> {
        Map::new(
            |offset: int| 0 <= offset <= usize::MAX && self.strings@.contains_key(offset as usize),
            |offset: int| self.strings@[offset as usize]@,
        )
    }
}

impl StringTable {
    /// Offset 0 is always present and holds the empty string.
    #[verifier::type_invariant]
    closed spec fn starts_with_empty_string(self) -> bool {
        self.strings@.contains_key(0) && self.strings@[0]@ == Seq::<char>::empty()
    }

    /// Builds the index of the string table stored in `table_bytes`.
    pub fn build(table_bytes: &[u8]) -> (table: StringTable)
        ensures
            table@ == string_table_of(table_bytes@),
    {
        let mut strings: HashMap<usize, String> = HashMap::new();
        strings.insert(0, String::new());
        let mut start: Option<usize> = None;
        let mut i: usize = 0;
        proof {
            assert forall|o: usize| 0 < o < table_bytes@.len() implies !run_closes_before(
                table_bytes@,
                o as int,
                0,
            ) by {
                lemma_first_nul(table_bytes@, o as int);
            }
        }
        while i < table_bytes.len()
            invariant
                i <= table_bytes@.len(),
                strings@.contains_key(0),
                strings@[0]@ == Seq::<char>::empty(),
                forall|o: usize|
                    #![trigger strings@.contains_key(o)]
                    #![trigger run_closes_before(table_bytes@, o as int, i as int)]
                    strings@.contains_key(o) <==> o == 0 || run_closes_before(
                        table_bytes@,
                        o as int,
                        i as int,
                    ),
                forall|o: usize|
                    strings@.contains_key(o) && o != 0 ==> (#[trigger] strings@[o])@ == run_text(
                        table_bytes@.subrange(o as int, first_nul(table_bytes@, o as int)),
                    ),
                match start {
                    None => forall|j: int| 0 <= j < i ==> table_bytes@[j] != 0,
                    Some(s) => 0 < s <= i && table_bytes@[s - 1] == 0 && forall|j: int|
                        s <= j < i ==> table_bytes@[j] != 0,
                },
            decreases table_bytes@.len() - i,
        {
            let ghost before = strings@;
            let ghost open_run = start;
            if table_bytes[i] == 0 {
                if let Some(s) = start {
                    proof {
                        lemma_first_nul_skip(table_bytes@, s as int, i as int);
                    }
                    let text = if s == i {
                        String::new()
                    } else {
                        decode_lossy(slice_subrange(table_bytes, s, i))
                    };
                    strings.insert(s, text);
                }
                start = Some(i + 1);
            }
            proof {
                assert forall|o: usize|
                    #![trigger strings@.contains_key(o)]
                    #![trigger run_closes_before(table_bytes@, o as int, i + 1)]
                    strings@.contains_key(o) <==> o == 0 || run_closes_before(
                        table_bytes@,
                        o as int,
                        i + 1,
                    ) by {
                    if 0 < o < table_bytes@.len() {
                        lemma_first_nul(table_bytes@, o as int);
                        assert(before.contains_key(o) <==> run_closes_before(
                            table_bytes@,
                            o as int,
                            i as int,
                        ));
                        if table_bytes@[o - 1] == 0 && first_nul(table_bytes@, o as int) == i {
                            // The run that the terminator at `i` closes is the open one.
                            assert(table_bytes@[i as int] == 0);
                            assert(open_run matches Some(s) && s == o);
                        }
                    }
                }
            }
            i = i + 1;
        }
        let table = StringTable { strings };
        proof {
            assert forall|o: int| table@.contains_key(o) <==> string_table_of(
                table_bytes@,
            ).contains_key(o) by {
                if 0 < o < table_bytes@.len() {
                    let key = o as usize;
                    assert(strings@.contains_key(key) <==> run_closes_before(
                        table_bytes@,
                        key as int,
                        i as int,
                    ));
                }
            }
            assert(table@ =~= string_table_of(table_bytes@));
        }
        table
    }

    /// Looks up the string that starts at `offset`.
    pub fn lookup(&self, offset: usize) -> (result: Option<&str>)
        ensures
            match result {
                Some(text) => self@.contains_key(offset as int) && text@ == self@[offset as int],
                None => !self@.contains_key(offset as int),
            },
            offset == 0 ==> (result matches Some(text) && text@ == Seq::<char>::empty()),
    {
        proof {
            use_type_invariant(self);
        }
        match self.strings.get(&offset) {
            Some(text) => Some(text.as_str()),
            None => None,
        }
    }
}

/// Every string table starts with the empty string, whatever its bytes.
pub proof fn lemma_table_starts_with_empty_string(bytes: Seq<u8>)
    ensures
        string_table_of(bytes).contains_key(0),
        string_table_of(bytes)[0] == Seq::<char>::empty(),
{
}

/// A string table holds a string at an offset other than 0 only where a
/// string starts: right behind a terminator. The string it holds there ends
/// before the next terminator and has no terminator in it.
pub proof fn lemma_table_entry(bytes: Seq<u8>, offset: int)
    requires
        offset != 0,
        string_table_of(bytes).contains_key(offset),
    ensures
        0 < offset < bytes.len(),
        bytes[offset - 1] == 0,
        offset <= first_nul(bytes, offset) < bytes.len(),
        bytes[first_nul(bytes, offset)] == 0,
        forall|j: int| offset <= j < first_nul(bytes, offset) ==> bytes[j] != 0,
        string_table_of(bytes)[offset] == run_text(
            bytes.subrange(offset, first_nul(bytes, offset)),
        ),
{
    lemma_first_nul(bytes, offset);
}

} // verus!
