use vstd::prelude::*;
use vstd::string::StringSliceAdditionalSpecFns;
use vstd::utf8::{encode_utf8, is_ascii_chars, is_ascii_chars_encode_utf8};
use crate::error::LqError;
use crate::value::Value;

verus! {

pub const SEGMENT_MIN_LEN: usize = 1;
pub const SEGMENT_MAX_LEN: usize = 30;
pub const MIN_NUMBER_OF_SEGMENTS: usize = 1;
pub const MAX_NUMBER_OF_SEGMENTS: usize = 12;

/// A single segment of an identifier: 1-30 ASCII characters `a-z` and `0-9`.
#[derive(Debug, PartialEq, Eq, Hash)]
pub struct Segment(String);

/// An identifier: 1-12 segments.
#[derive(Debug, PartialEq, Eq, Hash)]
pub struct Identifier(Vec<Segment>);

impl Clone for Segment {
    fn clone(&self) -> (r: Segment)
        ensures
            r == *self,
    {
        proof {
            use_type_invariant(self);
        }
        Segment(self.0.clone())
    }
}

impl Clone for Identifier {
    fn clone(&self) -> (r: Identifier)
        ensures
            r.view() == self.view(),
    {
        proof {
            use_type_invariant(self);
        }
        let mut segments: Vec<Segment> = Vec::new();
        let n = self.0.len();
        let mut i: usize = 0;
        while i < n
            invariant
                0 <= i <= n,
                n == self.0@.len(),
                segments@ == self.0@.take(i as int),
            decreases n - i,
        {
            segments.push(self.0[i].clone());
            assert(segments@ =~= self.0@.take(i + 1));
            i += 1;
        }
        assert(segments@ =~= self.0@);
        let r = Identifier(segments);
        assert(r.view() =~= self.view());
        r
    }
}

/// The formats an identifier can be written in.
pub enum Format {
    /// Segments joined by `_`.
    SnakeCase,
}

/// A byte that may appear in a segment: ASCII `a-z` or `0-9`.
pub open spec fn is_segment_byte(b: u8) -> bool {
    (97 <= b <= 122) || (48 <= b <= 57)
}

/// Checks the UTF-8 bytes of a segment: first its length, then its characters.
pub open spec fn segment_check(bytes: Seq<u8>) -> Result<(), LqError> {
    if bytes.len() < SEGMENT_MIN_LEN {
        Err(LqError::SegmentTooShort)
    } else if bytes.len() > SEGMENT_MAX_LEN {
        Err(LqError::SegmentTooLong)
    } else if forall|i: int| 0 <= i < bytes.len() ==> is_segment_byte(#[trigger] bytes[i]) {
        Ok(())
    } else {
        Err(LqError::SegmentInvalidChar)
    }
}

/// Checks the number of segments of an identifier.
pub open spec fn segment_count_check(number: int) -> Result<(), LqError> {
    if number < MIN_NUMBER_OF_SEGMENTS {
        Err(LqError::TooFewSegments)
    } else if number > MAX_NUMBER_OF_SEGMENTS {
        Err(LqError::TooManySegments)
    } else {
        Ok(())
    }
}

/// Checks the segments `segs[i..]` in order; the first failing segment decides.
pub open spec fn segments_check_from(segs: Seq<Seq<char>>, i: int) -> Result<(), LqError>
    decreases segs.len() - i,
{
    if 0 <= i < segs.len() {
        match segment_check(encode_utf8(segs[i])) {
            Ok(()) => segments_check_from(segs, i + 1),
            Err(e) => Err(e),
        }
    } else {
        Ok(())
    }
}

/// Checks an identifier given by its segments: every segment, then their number.
pub open spec fn identifier_check(segs: Seq<Seq<char>>) -> Result<(), LqError> {
    match segments_check_from(segs, 0) {
        Ok(()) => segment_count_check(segs.len() as int),
        Err(e) => Err(e),
    }
}

/// Splits a text at every `_` (the text `"a__b"` gives `a`, the empty text and `b`).
pub open spec fn split_underscore(s: Seq<char>) -> Seq<Seq<char>>
    decreases s.len(),
{
    if s.len() == 0 {
        seq![Seq::<char>::empty()]
    } else {
        let rest = split_underscore(s.drop_last());
        if s.last() == '_' {
            rest.push(Seq::<char>::empty())
        } else {
            rest.update(rest.len() - 1, rest.last().push(s.last()))
        }
    }
}

/// Joins texts with `_` in between.
pub open spec fn join_underscore(segs: Seq<Seq<char>>) -> Seq<char>
    decreases segs.len(),
{
    if segs.len() == 0 {
        Seq::empty()
    } else if segs.len() == 1 {
        segs[0]
    } else {
        join_underscore(segs.drop_last()) + seq!['_'] + segs.last()
    }
}

proof fn lemma_split_nonempty(s: Seq<char>)
    ensures
        split_underscore(s).len() >= 1,
    decreases s.len(),
{
    if s.len() > 0 {
        lemma_split_nonempty(s.drop_last());
    }
}

/// Joining the parts of a split gives the text back.
pub proof fn lemma_join_split(s: Seq<char>)
    ensures
        join_underscore(split_underscore(s)) == s,
    decreases s.len(),
{
    if s.len() > 0 {
        let rest = split_underscore(s.drop_last());
        lemma_join_split(s.drop_last());
        lemma_split_nonempty(s.drop_last());
        let parts = split_underscore(s);
        if s.last() == '_' {
            assert(parts.drop_last() =~= rest);
            assert(s =~= s.drop_last() + seq!['_'] + Seq::<char>::empty());
        } else {
            if rest.len() == 1 {
                assert(s =~= rest[0].push(s.last()));
            } else {
                assert(parts.drop_last() =~= rest.drop_last());
                assert(parts.last() == rest.last().push(s.last()));
                assert(join_underscore(parts) == join_underscore(parts.drop_last()) + seq!['_']
                    + parts.last());
                assert(join_underscore(rest) == join_underscore(rest.drop_last()) + seq!['_']
                    + rest.last());
                assert(s =~= s.drop_last().push(s.last()));
                assert(join_underscore(parts) =~= join_underscore(rest).push(s.last()));
            }
        }
    }
}

/// The texts of the given segments.
pub open spec fn segment_views(segs: Seq<Segment>) -> Seq<Seq<char>> {
    Seq::new(segs.len(), |i: int| segs[i].view())
}

impl Segment {
    /// The characters of the segment.
    pub closed spec fn view(&self) -> Seq<char> {
        self.0@
    }

    /// Every segment passes the segment check.
    #[verifier::type_invariant]
    spec fn segment_wf(self) -> bool {
        segment_check(encode_utf8(self.0@)) is Ok
    }

    /// Checks the given text: 1-30 bytes, only `a-z` and `0-9`.
    fn validate(value: &str) -> (r: Result<(), LqError>)
        ensures
            r == segment_check(value.spec_bytes()),
    {
        let bytes = value.as_bytes();
        let num_bytes = bytes.len();
        if num_bytes < SEGMENT_MIN_LEN {
            return Err(LqError::SegmentTooShort);
        } else if num_bytes > SEGMENT_MAX_LEN {
            return Err(LqError::SegmentTooLong);
        }
        let mut i: usize = 0;
        while i < num_bytes
            invariant
                0 <= i <= num_bytes,
                num_bytes == bytes@.len(),
                SEGMENT_MIN_LEN <= num_bytes <= SEGMENT_MAX_LEN,
                bytes@ == value.spec_bytes(),
                forall|j: int| 0 <= j < i ==> is_segment_byte(#[trigger] bytes@[j]),
            decreases num_bytes - i,
        {
            let byte_char = bytes[i];
            let is_valid = (byte_char >= 97 && byte_char <= 122) || (byte_char >= 48 && byte_char
                <= 57);
            if !is_valid {
                assert(!is_segment_byte(value.spec_bytes()[i as int]));
                return Err(LqError::SegmentInvalidChar);
            }
            i += 1;
        }
        Ok(())
    }

    /// Creates a segment from the given text, if it is a valid segment.
    pub fn try_from(value: &str) -> (r: Result<Segment, LqError>)
        ensures
            match segment_check(encode_utf8(value@)) {
                Ok(()) => r matches Ok(s) && s.view() == value@,
                Err(e) => r == Err::<Segment, LqError>(e),
            },
    {
        match Segment::validate(value) {
            Ok(()) => Ok(Segment(value.to_owned())),
            Err(e) => Err(e),
        }
    }

    /// Creates a segment from the given string, if it is a valid segment.
    pub fn try_from_string(value: String) -> (r: Result<Segment, LqError>)
        ensures
            match segment_check(encode_utf8(value@)) {
                Ok(()) => r matches Ok(s) && s.view() == value@,
                Err(e) => r == Err::<Segment, LqError>(e),
            },
    {
        match Segment::validate(value.as_str()) {
            Ok(()) => Ok(Segment(value)),
            Err(e) => Err(e),
        }
    }

    /// True if both segments hold the same text.
    pub fn is_equal(&self, other: &Segment) -> (r: bool)
        ensures
            r == (self.view() == other.view()),
    {
        self.0 == other.0
    }

    /// The segment itself (it always owns its text).
    pub fn into_owned(self) -> (r: Segment)
        ensures
            r.view() == self.view(),
    {
        self
    }

    /// The text of the segment.
    pub fn as_str(&self) -> (r: &str)
        ensures
            r@ == self.view(),
    {
        self.0.as_str()
    }
}

impl Identifier {
    /// The texts of the segments.
    pub closed spec fn view(&self) -> Seq<Seq<char>> {
        segment_views(self.0@)
    }

    /// Every identifier has 1-12 segments, each passing the segment check.
    #[verifier::type_invariant]
    spec fn identifier_wf(self) -> bool {
        &&& MIN_NUMBER_OF_SEGMENTS <= self.0@.len() <= MAX_NUMBER_OF_SEGMENTS
        &&& forall|i: int|
            0 <= i < self.0@.len() ==> segment_check(encode_utf8(#[trigger] self.0@[i].view())) is Ok
    }

    /// The segments of this identifier.
    pub fn segments(&self) -> (r: &[Segment])
        ensures
            segment_views(r@) == self.view(),
    {
        self.0.as_slice()
    }

    /// The identifier written in the given format (snake case: segments joined by `_`).
    pub fn to_string(&self, format: Format) -> (r: String)
        ensures
            r@ == join_underscore(self.view()),
    {
        match format {
            Format::SnakeCase => {
                let mut result = String::new();
                let n = self.0.len();
                let mut i: usize = 0;
                while i < n
                    invariant
                        0 <= i <= n,
                        n == self.0@.len(),
                        result@ == join_underscore(self.view().take(i as int)),
                    decreases n - i,
                {
                    let ghost before = self.view().take(i as int);
                    if i > 0 {
                        result.append("_");
                        proof {
                            reveal_strlit("_");
                        }
                    }
                    result.append(self.0[i].as_str());
                    proof {
                        let after = self.view().take(i + 1);
                        assert(after.drop_last() =~= before);
                        if i == 0 {
                            assert(after.len() == 1);
                        }
                    }
                    i += 1;
                }
                assert(self.view().take(n as int) =~= self.view());
                result
            },
        }
    }

    /// True if both identifiers have the same segments.
    pub fn is_equal(&self, other: &Identifier) -> (r: bool)
        ensures
            r == (self.view() == other.view()),
    {
        let len = self.0.len();
        if len == other.0.len() {
            let mut index: usize = 0;
            while index < len
                invariant
                    0 <= index <= len,
                    len == self.0@.len(),
                    len == other.0@.len(),
                    forall|j: int| 0 <= j < index ==> #[trigger] self.view()[j] == other.view()[j],
                decreases len - index,
            {
                if !self.0[index].is_equal(&other.0[index]) {
                    assert(self.view()[index as int] != other.view()[index as int]);
                    return false;
                }
                index += 1;
            }
            assert(self.view() =~= other.view());
            true
        } else {
            assert(self.view().len() != other.view().len());
            false
        }
    }

    /// Appends a segment; fails when the identifier already has the maximum number of segments.
    pub fn append(&mut self, segment: Segment) -> (r: Result<(), LqError>)
        ensures
            old(self).view().len() + 1 > MAX_NUMBER_OF_SEGMENTS ==> (r == Err::<(), LqError>(
                LqError::TooManySegments,
            ) && final(self).view() == old(self).view()),
            old(self).view().len() + 1 <= MAX_NUMBER_OF_SEGMENTS ==> (r is Ok
                && final(self).view() == old(self).view().push(segment.view())),
    {
        proof {
            use_type_invariant(&*self);
            use_type_invariant(&segment);
            reveal_strlit("a");
            reveal_strlit("");
        }
        if self.0.len() >= MAX_NUMBER_OF_SEGMENTS {
            Err(LqError::TooManySegments)
        } else {
            // Take the segments out (a valid identifier stands in meanwhile), then put them
            // back with the new segment.
            let mut taken = name("a", "", "");
            std::mem::swap(self, &mut taken);
            let Identifier(mut segments) = taken;
            segments.push(segment);
            *self = Identifier(segments);
            assert(self.view() =~= old(self).view().push(segment.view()));
            Ok(())
        }
    }

    /// The identifier itself (it always owns its segments).
    pub fn into_owned(self) -> (r: Identifier)
        ensures
            r.view() == self.view(),
    {
        self
    }

    /// Parses an identifier from snake case: the text is split at every `_`; each part has to
    /// be a valid segment (checked in order), and there have to be 1-12 parts.
    pub fn try_from(value: &str) -> (r: Result<Identifier, LqError>)
        ensures
            match identifier_check(split_underscore(value@)) {
                Ok(()) => r matches Ok(id) && id.view() == split_underscore(value@),
                Err(e) => r == Err::<Identifier, LqError>(e),
            },
    {
        let n = value.unicode_len();
        let mut pieces: Vec<&str> = Vec::new();
        let mut start: usize = 0;
        let mut i: usize = 0;
        assert(value@.take(0) =~= Seq::<char>::empty());
        while i < n
            invariant
                0 <= start <= i <= n,
                n == value@.len(),
                split_underscore(value@.take(i as int)) == pieces@.map_values(|p: &str| p@).push(
                    value@.subrange(start as int, i as int),
                ),
            decreases n - i,
        {
            let c = value.get_char(i);
            let ghost prev = value@.take(i as int);
            let ghost next = value@.take(i + 1);
            assert(next.drop_last() =~= prev);
            assert(next.last() == c);
            if c == '_' {
                let piece = value.substring_char(start, i);
                pieces.push(piece);
                start = i + 1;
                assert(value@.subrange(start as int, (i + 1) as int) =~= Seq::<char>::empty());
                assert(split_underscore(next) =~= pieces@.map_values(|p: &str| p@).push(
                    value@.subrange(start as int, (i + 1) as int),
                ));
            } else {
                assert(value@.subrange(start as int, i as int).push(c) =~= value@.subrange(
                    start as int,
                    (i + 1) as int,
                ));
                assert(split_underscore(next) =~= pieces@.map_values(|p: &str| p@).push(
                    value@.subrange(start as int, (i + 1) as int),
                ));
            }
            i += 1;
        }
        let last = value.substring_char(start, n);
        pieces.push(last);
        assert(value@.take(n as int) =~= value@);
        let ghost parts = split_underscore(value@);
        assert(pieces@.map_values(|p: &str| p@) =~= parts);

        let count = pieces.len();
        let mut segments: Vec<Segment> = Vec::new();
        let mut k: usize = 0;
        while k < count
            invariant
                0 <= k <= count,
                count == pieces@.len(),
                parts == split_underscore(value@),
                parts == pieces@.map_values(|p: &str| p@),
                segments@.len() == k,
                forall|j: int|
                    0 <= j < k ==> segment_check(encode_utf8(#[trigger] segments@[j].view())) is Ok,
                segments_check_from(parts, 0) == segments_check_from(parts, k as int),
                segment_views(segments@) == parts.take(k as int),
            decreases count - k,
        {
            let piece = pieces[k];
            assert(parts[k as int] == piece@);
            match Segment::try_from(piece) {
                Ok(segment) => {
                    proof {
                        use_type_invariant(&segment);
                    }
                    assert(segment.view() == piece@);
                    let ghost old_segments = segments@;
                    segments.push(segment);
                    assert forall|j: int| 0 <= j < k + 1 implies #[trigger] segment_views(
                        segments@,
                    )[j] == parts.take(k + 1)[j] by {
                        if j < k {
                            assert(segments@[j] == old_segments[j]);
                            assert(segment_views(old_segments)[j] == parts.take(
                                k as int,
                            )[j]);
                        }
                    }
                    assert(segment_views(segments@) =~= parts.take(k + 1));
                },
                Err(e) => {
                    assert(segments_check_from(parts, k as int) == Err::<(), LqError>(e));
                    assert(identifier_check(parts) == Err::<(), LqError>(e));
                    return Err(e);
                },
            }
            k += 1;
        }
        assert(parts.take(count as int) =~= parts);
        if segments.len() < MIN_NUMBER_OF_SEGMENTS {
            Err(LqError::TooFewSegments)
        } else if segments.len() > MAX_NUMBER_OF_SEGMENTS {
            Err(LqError::TooManySegments)
        } else {
            let id = Identifier(segments);
            assert(id.view() =~= parts);
            Ok(id)
        }
    }
}

/// A character allowed in a segment: `a-z` or `0-9`.
pub open spec fn is_name_char(c: char) -> bool {
    ('a' <= c && c <= 'z') || ('0' <= c && c <= '9')
}

/// A text that is a valid segment: 1-30 characters `a-z` and `0-9`.
pub open spec fn is_name_chars(s: Seq<char>) -> bool {
    &&& 1 <= s.len() <= SEGMENT_MAX_LEN
    &&& forall|i: int| 0 <= i < s.len() ==> is_name_char(#[trigger] s[i])
}

/// A text of segment characters passes the segment check.
pub proof fn lemma_name_chars_segment(s: Seq<char>)
    requires
        is_name_chars(s),
    ensures
        segment_check(encode_utf8(s)) is Ok,
{
    assert(is_ascii_chars(s));
    is_ascii_chars_encode_utf8(s);
    let bytes = encode_utf8(s);
    assert forall|i: int| 0 <= i < bytes.len() implies is_segment_byte(#[trigger] bytes[i]) by {
        assert(is_name_char(s[i]));
        assert(s[i] as u8 == bytes[i]);
    }
}

/// The segment with the given text.
pub fn segment_named(text: &str) -> (r: Segment)
    requires
        is_name_chars(text@),
    ensures
        r.view() == text@,
        segment_check(encode_utf8(r.view())) is Ok,
{
    proof {
        lemma_name_chars_segment(text@);
    }
    Segment::try_from(text).unwrap()
}

/// The identifier with the given segment texts (1 to 3 of them; empty texts are left out).
pub fn name(a: &str, b: &str, c: &str) -> (r: Identifier)
    requires
        is_name_chars(a@),
        b@.len() == 0 || is_name_chars(b@),
        c@.len() == 0 || is_name_chars(c@),
    ensures
        r.view() == seq![a@] + (if b@.len() == 0 { Seq::<Seq<char>>::empty() } else { seq![b@] })
            + (if c@.len() == 0 { Seq::<Seq<char>>::empty() } else { seq![c@] }),
{
    let mut segments: Vec<Segment> = Vec::new();
    segments.push(segment_named(a));
    if b.unicode_len() > 0 {
        segments.push(segment_named(b));
    }
    if c.unicode_len() > 0 {
        segments.push(segment_named(c));
    }
    let id = Identifier(segments);
    assert(id.view().len() == segments@.len());
    assert forall|i: int| 0 <= i < segments@.len() implies id.view()[i] == (#[trigger] segments@[i]).view() by {}
    assert(id.view() =~= seq![a@] + (if b@.len() == 0 { Seq::<Seq<char>>::empty() } else { seq![b@] })
        + (if c@.len() == 0 { Seq::<Seq<char>>::empty() } else { seq![c@] }));
    id
}

/// Checks the items `items[i..]` of an identifier read from data: each has to be a text that
/// is a valid segment; the first failing item decides.
pub open spec fn segment_values_check(items: Seq<Value>, i: int) -> Result<(), LqError>
    decreases items.len() - i,
{
    if 0 <= i < items.len() {
        match items[i] {
            Value::Unicode(text) => match segment_check(encode_utf8(text@)) {
                Ok(()) => segment_values_check(items, i + 1),
                Err(e) => Err(e),
            },
            _ => Err(LqError::UnexpectedValue),
        }
    } else {
        Ok(())
    }
}

/// The texts of text values.
pub open spec fn value_texts(items: Seq<Value>) -> Seq<Seq<char>> {
    Seq::new(items.len(), |i: int| items[i]->Unicode_0@)
}

/// Reading an identifier from data: a sequence of 1-12 texts (the number is checked first),
/// each a valid segment.
pub open spec fn identifier_from_value(v: Value) -> Result<Seq<Seq<char>>, LqError> {
    match v {
        Value::Sequence(items) => match segment_count_check(items.len() as int) {
            Ok(()) => match segment_values_check(items@, 0) {
                Ok(()) => Ok(value_texts(items@)),
                Err(e) => Err(e),
            },
            Err(e) => Err(e),
        },
        _ => Err(LqError::UnexpectedValue),
    }
}

/// `v` is the data of an identifier with the segments `segs`: a sequence of their texts.
pub open spec fn represents_identifier(v: Value, segs: Seq<Seq<char>>) -> bool {
    &&& v is Sequence
    &&& v->Sequence_0@.len() == segs.len()
    &&& forall|i: int|
        0 <= i < segs.len() ==> (#[trigger] v->Sequence_0@[i]) is Unicode
            && v->Sequence_0@[i]->Unicode_0@ == segs[i]
}

impl Identifier {
    /// Reads an identifier from data (see `identifier_from_value`).
    pub fn de_serialize(value: &Value) -> (r: Result<Identifier, LqError>)
        ensures
            match identifier_from_value(*value) {
                Ok(segs) => r matches Ok(id) && id.view() == segs,
                Err(e) => r == Err::<Identifier, LqError>(e),
            },
    {
        match value {
            Value::Sequence(items) => {
                let n = items.len();
                if n < MIN_NUMBER_OF_SEGMENTS {
                    return Err(LqError::TooFewSegments);
                } else if n > MAX_NUMBER_OF_SEGMENTS {
                    return Err(LqError::TooManySegments);
                }
                let mut segments: Vec<Segment> = Vec::new();
                let mut i: usize = 0;
                while i < n
                    invariant
                        0 <= i <= n,
                        n == items@.len(),
                        MIN_NUMBER_OF_SEGMENTS <= n <= MAX_NUMBER_OF_SEGMENTS,
                        *value == Value::Sequence(*items),
                        segment_values_check(items@, 0) == segment_values_check(items@, i as int),
                        segments@.len() == i,
                        forall|j: int|
                            0 <= j < i ==> segment_check(encode_utf8(#[trigger] segments@[j].view()))
                                is Ok,
                        forall|j: int|
                            0 <= j < i ==> (#[trigger] items@[j]) is Unicode
                                && segments@[j].view() == items@[j]->Unicode_0@,
                    decreases n - i,
                {
                    match &items[i] {
                        Value::Unicode(text) => match Segment::try_from(text.as_str()) {
                            Ok(segment) => {
                                proof {
                                    use_type_invariant(&segment);
                                }
                                segments.push(segment);
                            },
                            Err(e) => {
                                return Err(e);
                            },
                        },
                        _ => {
                            return Err(LqError::UnexpectedValue);
                        },
                    }
                    i += 1;
                }
                let id = Identifier(segments);
                assert(id.view() =~= value_texts(items@));
                Ok(id)
            },
            _ => Err(LqError::UnexpectedValue),
        }
    }

    /// The identifier as data: the sequence of the texts of its segments. Reading that data
    /// back gives the same segments.
    pub fn serialize(&self) -> (r: Value)
        ensures
            represents_identifier(r, self.view()),
            identifier_from_value(r) == Ok::<Seq<Seq<char>>, LqError>(self.view()),
    {
        proof {
            use_type_invariant(self);
            lemma_segments_check_ok(self.view(), 0);
        }
        let mut items: Vec<Value> = Vec::new();
        let n = self.0.len();
        let mut i: usize = 0;
        while i < n
            invariant
                0 <= i <= n,
                n == self.0@.len(),
                items@.len() == i,
                forall|j: int|
                    0 <= j < i ==> (#[trigger] items@[j]) is Unicode && items@[j]->Unicode_0@
                        == self.view()[j],
            decreases n - i,
        {
            items.push(Value::Unicode(self.0[i].0.clone()));
            i += 1;
        }
        let r = Value::Sequence(items);
        proof {
            lemma_identifier_data_round_trip(r, self.view());
        }
        r
    }
}

/// Segments that each pass the segment check pass the check of `segs[i..]`.
proof fn lemma_segments_check_ok(segs: Seq<Seq<char>>, i: int)
    requires
        0 <= i <= segs.len(),
        forall|j: int| 0 <= j < segs.len() ==> segment_check(encode_utf8(#[trigger] segs[j])) is Ok,
    ensures
        segments_check_from(segs, i) is Ok,
    decreases segs.len() - i,
{
    if i < segs.len() {
        assert(segment_check(encode_utf8(segs[i])) is Ok);
        lemma_segments_check_ok(segs, i + 1);
    }
}

/// Reading back the data of a valid identifier gives the identifier.
pub proof fn lemma_identifier_data_round_trip(v: Value, segs: Seq<Seq<char>>)
    requires
        represents_identifier(v, segs),
        identifier_check(segs) is Ok,
    ensures
        identifier_from_value(v) == Ok::<Seq<Seq<char>>, LqError>(segs),
{
    let items = v->Sequence_0@;
    values_check_from_segments(items, segs, 0);
    assert(value_texts(items) =~= segs);
}

proof fn values_check_from_segments(items: Seq<Value>, segs: Seq<Seq<char>>, i: int)
    requires
        0 <= i <= segs.len(),
        items.len() == segs.len(),
        forall|j: int|
            0 <= j < segs.len() ==> (#[trigger] items[j]) is Unicode && items[j]->Unicode_0@
                == segs[j],
        segments_check_from(segs, i) is Ok,
    ensures
        segment_values_check(items, i) is Ok,
    decreases segs.len() - i,
{
    if i < segs.len() {
        assert(items[i] is Unicode);
        values_check_from_segments(items, segs, i + 1);
    }
}

/// Writing an identifier parsed from a text in snake case gives the text back.
pub proof fn lemma_identifier_snake_case_round_trip(value: Seq<char>, id: Identifier)
    requires
        id.view() == split_underscore(value),
    ensures
        join_underscore(id.view()) == value,
{
    lemma_join_split(value);
}

} // verus!
