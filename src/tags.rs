use vstd::prelude::*;

verus! {

/// One `key=value` tag of a point of interest.
pub struct Tag {
    pub key: String,
    pub value: String,
}

/// The tags of a point of interest, in the order the source listed them.
pub struct Tags {
    pub entries: Vec<Tag>,
}

/// The value of the first entry whose key is `key`, if any.
pub open spec fn lookup(entries: Seq<Tag>, key: Seq<char>) -> Option<Seq<char>>
    decreases entries.len(),
{
    if entries.len() == 0 {
        None
    } else if entries[0].key@ == key {
        Some(entries[0].value@)
    } else {
        lookup(entries.drop_first(), key)
    }
}

/// The value of `key`, or the empty text where the tag is absent.
pub open spec fn tag_text(entries: Seq<Tag>, key: Seq<char>) -> Seq<char> {
    match lookup(entries, key) {
        Some(v) => v,
        None => Seq::empty(),
    }
}

impl Tags {
    pub fn new() -> (r: Tags)
        ensures
            r.entries@.len() == 0,
    {
        Tags { entries: Vec::new() }
    }

    /// Adds a tag after the existing ones.
    pub fn push(&mut self, key: String, value: String)
        ensures
            final(self).entries@ == old(self).entries@.push(Tag { key, value }),
    {
        self.entries.push(Tag { key, value });
    }

    /// The value stored under `key`.
    pub fn get(&self, key: &str) -> (r: Option<&String>)
        ensures
            match r {
                Some(v) => lookup(self.entries@, key@) == Some(v@),
                None => lookup(self.entries@, key@) is None,
            },
    {
        let wanted = key.to_owned();
        let n = self.entries.len();
        let mut i: usize = 0;
        assert(self.entries@.subrange(0, n as int) =~= self.entries@);
        while i < n
            invariant
                n == self.entries@.len(),
                0 <= i <= n,
                wanted@ == key@,
                lookup(self.entries@, key@) == lookup(self.entries@.subrange(i as int, n as int), key@),
            decreases n - i,
        {
            let rest = Ghost(self.entries@.subrange(i as int, n as int));
            assert(rest@[0] == self.entries@[i as int]);
            if self.entries[i].key == wanted {
                return Some(&self.entries[i].value);
            }
            assert(rest@.drop_first() =~= self.entries@.subrange(i + 1, n as int));
            i += 1;
        }
        None
    }
}

/// The value of `key` in `tags`, or `""` where the tag is absent.
pub fn get_tag_as_str<'a>(tags: &'a Tags, key: &str) -> (r: &'a str)
    ensures
        r@ == tag_text(tags.entries@, key@),
{
    match tags.get(key) {
        Some(v) => v.as_str(),
        None => {
            proof {
                reveal_strlit("");
            }
            ""
        },
    }
}

} // verus!
