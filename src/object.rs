use vstd::prelude::*;

verus! {

/// Mathematical model of a listed object.
pub struct ObjectView {
    pub key: Seq<char>,
    pub size: u64,
    pub checksum: Seq<char>,
    pub last_modified: Seq<char>,
}

/// One entry of a bucket listing: key, size in bytes, checksum (ETag) and
/// last-modified time as the backend wrote it.
pub struct ObjectDescriptor {
    pub key: String,
    pub size: u64,
    pub checksum: String,
    pub last_modified: String,
}

impl View for ObjectDescriptor {
    type V = ObjectView;

    open spec fn view(&self) -> ObjectView {
        ObjectView {
            key: self.key@,
            size: self.size,
            checksum: self.checksum@,
            last_modified: self.last_modified@,
        }
    }
}

/// A multipart upload produces an ETag of the form `<hash>-<parts>`, which
/// is not a content hash and cannot be compared across backends.
pub open spec fn is_composite_checksum(c: Seq<char>) -> bool {
    c.contains('-')
}

/// Two checksums are compared only when neither comes from a multipart upload.
pub open spec fn checksums_comparable(a: Seq<char>, b: Seq<char>) -> bool {
    !is_composite_checksum(a) && !is_composite_checksum(b)
}

/// The destination copy `dst` of the source object `src` is out of date:
/// the sizes differ, or the checksums are comparable and differ.
pub open spec fn differs(src: ObjectView, dst: ObjectView) -> bool {
    src.size != dst.size || (checksums_comparable(src.checksum, dst.checksum)
        && src.checksum != dst.checksum)
}

/// Whether the checksum has the shape of a multipart-upload ETag.
pub fn checksum_is_composite(c: &str) -> (r: bool)
    ensures
        r == is_composite_checksum(c@),
{
    let n = c.unicode_len();
    let mut i: usize = 0;
    while i < n
        invariant
            n == c@.len(),
            i <= n,
            forall|j: int| 0 <= j < i ==> c@[j] != '-',
        decreases n - i,
    {
        if c.get_char(i) == '-' {
            return true;
        }
        i = i + 1;
    }
    proof {
        assert forall|j: int| 0 <= j < c@.len() implies c@[j] != '-' by {}
    }
    false
}

impl ObjectDescriptor {
    /// A copy of the descriptor with the same view.
    pub fn duplicate(&self) -> (r: ObjectDescriptor)
        ensures
            r@ == self@,
    {
        ObjectDescriptor {
            key: self.key.clone(),
            size: self.size,
            checksum: self.checksum.clone(),
            last_modified: self.last_modified.clone(),
        }
    }

    /// Whether `other`, the destination copy of this source object, must be
    /// replaced. Sizes are always compared; checksums only when neither is
    /// a multipart ETag, in which case a size match is taken as equality.
    pub fn differs_from(&self, other: &ObjectDescriptor) -> (r: bool)
        ensures
            r == differs(self@, other@),
    {
        if self.size != other.size {
            return true;
        }
        self.checksum_comparable_with(other) && self.checksum != other.checksum
    }

    /// Whether the two checksums can be compared, neither being a
    /// multipart ETag.
    pub fn checksum_comparable_with(&self, other: &ObjectDescriptor) -> (r: bool)
        ensures
            r == checksums_comparable(self.checksum@, other.checksum@),
    {
        !checksum_is_composite(self.checksum.as_str()) && !checksum_is_composite(
            other.checksum.as_str(),
        )
    }
}

} // verus!
