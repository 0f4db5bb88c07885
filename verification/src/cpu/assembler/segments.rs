//! Named output segments, each with the address it loads at and the bytes assembled into it.
use vstd::prelude::*;

use super::source::same_text;
use crate::text::{chars_of, string_of};

verus! {

/// A segment as a name, a load address and its bytes.
pub type SegmentView = (Seq<char>, u16, Seq<u8>);

/// The index of the first segment named `name`, or the number of segments.
pub open spec fn segment_position(segments: Seq<SegmentView>, name: Seq<char>) -> int
    decreases segments.len(),
{
    if segments.len() == 0 {
        0
    } else if segments[0].0 == name {
        0
    } else {
        1 + segment_position(segments.drop_first(), name)
    }
}

/// The position is in range, and the segment found there carries the name.
pub proof fn lemma_segment_position(segments: Seq<SegmentView>, name: Seq<char>)
    ensures
        0 <= segment_position(segments, name) <= segments.len(),
        segment_position(segments, name) < segments.len() ==> segments[segment_position(segments, name)].0 == name,
        forall|j: int| 0 <= j < segment_position(segments, name) ==> segments[j].0 != name,
    decreases segments.len(),
{
    if segments.len() > 0 && segments[0].0 != name {
        lemma_segment_position(segments.drop_first(), name);
        assert forall|j: int| 0 <= j < segment_position(segments, name) implies segments[j].0 != name by {
            if j > 0 {
                assert(segments[j] == segments.drop_first()[j - 1]);
            }
        }
    }
}

/// The list after `add`: a segment of that name is replaced by an empty one at the new
/// address, and a new name is appended.
pub open spec fn segments_after_add(segments: Seq<SegmentView>, name: Seq<char>, load_address: u16) -> Seq<
    SegmentView,
> {
    let p = segment_position(segments, name);
    if p < segments.len() {
        segments.update(p, (name, load_address, seq![]))
    } else {
        segments.push((name, load_address, seq![]))
    }
}

/// A named run of output bytes and the address it loads at.
#[derive(Debug)]
pub struct Segment {
    pub name: Vec<char>,
    pub load_address: u16,
    pub data: Vec<u8>,
}

impl Segment {
    /// An empty, unnamed segment loading at `load_address`.
    pub fn new(load_address: u16) -> (s: Self)
        ensures
            s.name@ == Seq::<char>::empty(),
            s.load_address == load_address,
            s.data@ == Seq::<u8>::empty(),
    {
        Segment { name: Vec::new(), load_address, data: Vec::new() }
    }

    /// Append `bytes` to the segment's data.
    pub fn extend(&mut self, bytes: &[u8])
        ensures
            final(self).name == old(self).name,
            final(self).load_address == old(self).load_address,
            final(self).data@ == old(self).data@ + bytes@,
    {
        extend_bytes(&mut self.data, bytes);
    }

    /// Drop the segment's data, keeping its name and load address.
    pub fn clear(&mut self)
        ensures
            final(self).name == old(self).name,
            final(self).load_address == old(self).load_address,
            final(self).data@ == Seq::<u8>::empty(),
    {
        self.data.clear();
    }
}

/// The assembler's segments, in the order they were added, and the one selected by the last
/// `.segment` directive.
#[derive(Debug)]
pub struct Segments {
    pub(crate) list: Vec<Segment>,
    pub(crate) current: Option<Vec<char>>,
}

/// Append `bytes` to `data`.
pub fn extend_bytes(data: &mut Vec<u8>, bytes: &[u8])
    ensures
        final(data)@ == old(data)@ + bytes@,
{
    let mut i: usize = 0;
    while i < bytes.len()
        invariant
            i <= bytes@.len(),
            data@ == old(data)@ + bytes@.subrange(0, i as int),
        decreases bytes@.len() - i,
    {
        data.push(bytes[i]);
        assert(data@ =~= old(data)@ + bytes@.subrange(0, i + 1));
        i += 1;
    }
    assert(bytes@.subrange(0, bytes@.len() as int) =~= bytes@);
}

impl Segments {
    /// The segments as names, load addresses and bytes.
    pub closed spec fn spec_list(&self) -> Seq<SegmentView> {
        self.list@.map_values(|s: Segment| (s.name@, s.load_address, s.data@))
    }

    /// The name of the selected segment.
    pub closed spec fn spec_current(&self) -> Option<Seq<char>> {
        match self.current {
            Some(c) => Some(c@),
            None => None,
        }
    }

    /// No segments, none selected.
    pub fn new() -> (s: Self)
        ensures
            s.spec_list() == Seq::<SegmentView>::empty(),
            s.spec_current() is None,
    {
        let s = Segments { list: Vec::new(), current: None };
        assert(s.spec_list() =~= Seq::<SegmentView>::empty());
        s
    }

    /// Where the first segment named `name` stands.
    pub fn position(&self, name: &[char]) -> (i: usize)
        ensures
            i == segment_position(self.spec_list(), name@),
    {
        let mut i: usize = 0;
        assert(self.spec_list().subrange(0, self.spec_list().len() as int) =~= self.spec_list());
        while i < self.list.len()
            invariant
                i <= self.list@.len(),
                self.spec_list().len() == self.list@.len(),
                segment_position(self.spec_list(), name@) == i + segment_position(
                    self.spec_list().subrange(i as int, self.spec_list().len() as int),
                    name@,
                ),
            decreases self.list@.len() - i,
        {
            let ghost rest = self.spec_list().subrange(i as int, self.spec_list().len() as int);
            assert(rest[0] == self.spec_list()[i as int]);
            if same_text(self.list[i].name.as_slice(), name) {
                return i;
            }
            assert(rest.drop_first() =~= self.spec_list().subrange(i + 1, self.spec_list().len() as int));
            i += 1;
        }
        i
    }

    /// Whether a segment named `name` exists.
    pub fn contains(&self, name: &[char]) -> (b: bool)
        ensures
            b == (segment_position(self.spec_list(), name@) < self.spec_list().len()),
    {
        self.position(name) < self.list.len()
    }

    /// Whether there are no segments.
    pub fn is_empty(&self) -> (b: bool)
        ensures
            b == (self.spec_list().len() == 0),
    {
        self.list.len() == 0
    }

    /// How many segments there are.
    pub fn len(&self) -> (n: usize)
        ensures
            n == self.spec_list().len(),
    {
        self.list.len()
    }

    /// Add a segment, empty, at `load_address`; one already of that name is replaced.
    pub fn add_chars(&mut self, name: &[char], load_address: u16)
        ensures
            final(self).spec_list() == segments_after_add(old(self).spec_list(), name@, load_address),
            final(self).spec_current() == old(self).spec_current(),
    {
        let i = self.position(name);
        let mut segment = Segment::new(load_address);
        segment.name = vstd::slice::slice_to_vec(name);
        if i < self.list.len() {
            self.list.set(i, segment);
            assert(self.spec_list() =~= segments_after_add(old(self).spec_list(), name@, load_address));
        } else {
            self.list.push(segment);
            assert(self.spec_list() =~= segments_after_add(old(self).spec_list(), name@, load_address));
        }
    }

    /// Add a segment, empty, at `load_address`; one already of that name is replaced.
    pub fn add(&mut self, name: &str, load_address: u16)
        ensures
            final(self).spec_list() == segments_after_add(old(self).spec_list(), name@, load_address),
            final(self).spec_current() == old(self).spec_current(),
    {
        let chars = chars_of(name);
        self.add_chars(chars.as_slice(), load_address);
    }

    /// Select the segment named `name`.
    pub fn select(&mut self, name: &[char])
        ensures
            final(self).spec_list() == old(self).spec_list(),
            final(self).spec_current() == Some(name@),
    {
        self.current = Some(vstd::slice::slice_to_vec(name));
    }

    /// Empty every segment and select none, keeping the names and load addresses.
    pub fn reset(&mut self)
        ensures
            final(self).spec_list().len() == old(self).spec_list().len(),
            forall|i: int|
                0 <= i < old(self).spec_list().len() ==> #[trigger] final(self).spec_list()[i] == (
                old(self).spec_list()[i].0,
                old(self).spec_list()[i].1,
                Seq::<u8>::empty(),
            ),
            final(self).spec_current() is None,
    {
        self.current = None;
        let mut i: usize = 0;
        while i < self.list.len()
            invariant
                i <= self.list@.len(),
                self.list@.len() == old(self).list@.len(),
                self.current is None,
                forall|j: int|
                    0 <= j < old(self).spec_list().len() ==> #[trigger] self.spec_list()[j] == (if j < i {
                        (old(self).spec_list()[j].0, old(self).spec_list()[j].1, Seq::<u8>::empty())
                    } else {
                        old(self).spec_list()[j]
                    }),
            decreases self.list@.len() - i,
        {
            let ghost before = self.spec_list();
            self.list[i].clear();
            assert(self.spec_list() =~= before.update(i as int, (before[i as int].0, before[i as int].1, Seq::<u8>::empty())));
            i += 1;
        }
    }

    /// Append bytes to the segment at `index`.
    pub fn extend_at(&mut self, index: usize, bytes: &[u8])
        requires
            index < old(self).spec_list().len(),
        ensures
            final(self).spec_list() == old(self).spec_list().update(
                index as int,
                (
                    old(self).spec_list()[index as int].0,
                    old(self).spec_list()[index as int].1,
                    old(self).spec_list()[index as int].2 + bytes@,
                ),
            ),
            final(self).spec_current() == old(self).spec_current(),
    {
        self.list[index].extend(bytes);
        assert(self.spec_list() =~= old(self).spec_list().update(
            index as int,
            (
                old(self).spec_list()[index as int].0,
                old(self).spec_list()[index as int].1,
                old(self).spec_list()[index as int].2 + bytes@,
            ),
        ));
    }

    /// The selected segment's position, if one is selected and exists.
    pub fn current_index(&self) -> (r: Option<usize>)
        ensures
            r == (match self.spec_current() {
                Some(name) => if segment_position(self.spec_list(), name) < self.spec_list().len() {
                    Some(segment_position(self.spec_list(), name) as usize)
                } else {
                    None
                },
                None => None,
            }),
    {
        match &self.current {
            Some(name) => {
                let i = self.position(name.as_slice());
                if i < self.list.len() {
                    Some(i)
                } else {
                    None
                }
            },
            None => None,
        }
    }

    /// The segment code goes to: the selected one, or the first when none is selected.
    pub fn current_or_first_index(&self) -> (r: Option<usize>)
        ensures
            r == (match self.spec_current() {
                Some(name) => if segment_position(self.spec_list(), name) < self.spec_list().len() {
                    Some(segment_position(self.spec_list(), name) as usize)
                } else {
                    None
                },
                None => if self.spec_list().len() > 0 {
                    Some(0usize)
                } else {
                    None
                },
            }),
    {
        match &self.current {
            Some(_) => self.current_index(),
            None => if self.list.len() > 0 {
                Some(0)
            } else {
                None
            },
        }
    }

    /// The load address of the segment at `index`.
    pub fn load_address_at(&self, index: usize) -> (a: u16)
        requires
            index < self.spec_list().len(),
        ensures
            a == self.spec_list()[index as int].1,
    {
        self.list[index].load_address
    }

    /// How many bytes the segment at `index` holds.
    pub fn data_len_at(&self, index: usize) -> (n: usize)
        requires
            index < self.spec_list().len(),
        ensures
            n == self.spec_list()[index as int].2.len(),
    {
        self.list[index].data.len()
    }

    /// The bytes of the segment at `index`.
    pub fn data_at(&self, index: usize) -> (d: &Vec<u8>)
        requires
            index < self.spec_list().len(),
        ensures
            d@ == self.spec_list()[index as int].2,
    {
        &self.list[index].data
    }

    /// The name of the segment at `index`.
    pub fn name_at(&self, index: usize) -> (n: String)
        requires
            index < self.spec_list().len(),
        ensures
            n@ == self.spec_list()[index as int].0,
    {
        string_of(self.list[index].name.as_slice())
    }

    /// The name of the selected segment.
    pub fn current_name(&self) -> (n: Option<String>)
        ensures
            match n {
                Some(s) => self.spec_current() == Some(s@),
                None => self.spec_current() is None,
            },
    {
        match &self.current {
            Some(name) => Some(string_of(name.as_slice())),
            None => None,
        }
    }
}

} // verus!
