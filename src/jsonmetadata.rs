use vstd::prelude::*;

verus! {

/// The kind of record: a folder or a document.
#[derive(Debug, Copy, Clone, PartialEq, Eq, Structural)]
pub enum DocType {
    CollectionType,
    DocumentType,
}

/// A sidecar record: the visible name, the parent prefix, the kind, and
/// every other key with its value kept as JSON text.
#[derive(Debug)]
pub struct JsonMetadata {
    pub parent: String,
    pub visible_name: String,
    pub doc_type: DocType,
    pub extra: Vec<(String, String)>,
}

/// The keys and values of a tail, as character sequences.
pub open spec fn tail_view(t: Seq<(String, String)>) -> Seq<(Seq<char>, Seq<char>)> {
    t.map_values(|p: (String, String)| (p.0@, p.1@))
}

/// The keys that the three named fields take in the record's encoding.
pub open spec fn is_named_key(k: Seq<char>) -> bool {
    k == "parent"@ || k == "visibleName"@ || k == "type"@
}

/// The decimal digit `d`.
pub open spec fn digit_char(d: nat) -> char {
    seq!['0', '1', '2', '3', '4', '5', '6', '7', '8', '9'][d as int]
}

/// The decimal notation of `n`, without leading zeros.
pub open spec fn decimal(n: nat) -> Seq<char>
    decreases n,
{
    if n < 10 {
        seq![digit_char(n)]
    } else {
        decimal(n / 10).push(digit_char(n % 10))
    }
}

/// The tail that a new document record starts with.
pub open spec fn default_tail(modtime: u64) -> Seq<(Seq<char>, Seq<char>)> {
    seq![
        ("deleted"@, "false"@),
        ("lastModified"@, decimal(modtime as nat)),
        ("metadatamodified"@, "false"@),
        ("modified"@, "false"@),
        ("pinned"@, "false"@),
        ("synced"@, "false"@),
        ("version"@, "0"@),
    ]
}

impl View for JsonMetadata {
    /// Parent, visible name, kind and tail.
    type V = (Seq<char>, Seq<char>, DocType, Seq<(Seq<char>, Seq<char>)>);

    open spec fn view(&self) -> Self::V {
        (self.parent@, self.visible_name@, self.doc_type, tail_view(self.extra@))
    }
}

impl JsonMetadata {
    /// Each key of the tail occurs once, and none is one of the named fields.
    pub open spec fn wf(&self) -> bool {
        let t = tail_view(self.extra@);
        &&& forall|i: int| 0 <= i < t.len() ==> !is_named_key(#[trigger] t[i].0)
        &&& forall|i: int, j: int| 0 <= i < j < t.len() ==> #[trigger] t[i].0 != #[trigger] t[j].0
    }

    fn new(visible_name: &str, parent: &str, doctype: DocType, extra: Vec<(String, String)>) -> (r:
        JsonMetadata)
        ensures
            r.visible_name@ == visible_name@,
            r.parent@ == parent@,
            r.doc_type == doctype,
            r.extra@ == extra@,
    {
        JsonMetadata {
            parent: String::from_str(parent),
            visible_name: String::from_str(visible_name),
            doc_type: doctype,
            extra: extra,
        }
    }

    /// A document record whose tail holds the defaults, with `modtime` (in
    /// milliseconds since the epoch) as the time of last change.
    pub fn new_file(visible_name: &str, parent: &str, modtime: u64) -> (r: JsonMetadata)
        ensures
            r.visible_name@ == visible_name@,
            r.parent@ == parent@,
            r.doc_type == DocType::DocumentType,
            tail_view(r.extra@) == default_tail(modtime),
            r.wf(),
    {
        let mut extra: Vec<(String, String)> = Vec::new();
        extra.push((String::from_str("deleted"), String::from_str("false")));
        extra.push((String::from_str("lastModified"), decimal_string(modtime)));
        extra.push((String::from_str("metadatamodified"), String::from_str("false")));
        extra.push((String::from_str("modified"), String::from_str("false")));
        extra.push((String::from_str("pinned"), String::from_str("false")));
        extra.push((String::from_str("synced"), String::from_str("false")));
        extra.push((String::from_str("version"), String::from_str("0")));
        let r = JsonMetadata::new(visible_name, parent, DocType::DocumentType, extra);
        proof {
            assert(tail_view(r.extra@) =~= default_tail(modtime));
            reveal_strlit("deleted");
            reveal_strlit("lastModified");
            reveal_strlit("metadatamodified");
            reveal_strlit("modified");
            reveal_strlit("pinned");
            reveal_strlit("synced");
            reveal_strlit("version");
            reveal_strlit("parent");
            reveal_strlit("visibleName");
            reveal_strlit("type");
            let t = tail_view(r.extra@);
            assert(t[0].0.len() == 7 && t[1].0.len() == 12 && t[2].0.len() == 16);
            assert(t[3].0.len() == 8 && t[4].0.len() == 6 && t[5].0.len() == 6);
            assert(t[6].0.len() == 7 && t[0].0[0] == 'd' && t[6].0[0] == 'v');
            assert(t[4].0[0] == 'p' && t[5].0[0] == 's');
            assert("parent"@.len() == 6 && "visibleName"@.len() == 11 && "type"@.len() == 4);
            assert("parent"@[1] == 'a' && "pinned"@[1] == 'i');
        }
        r
    }

    /// A folder record with an empty tail.
    pub fn new_dir(visible_name: &str, parent: &str) -> (r: JsonMetadata)
        ensures
            r.visible_name@ == visible_name@,
            r.parent@ == parent@,
            r.doc_type == DocType::CollectionType,
            tail_view(r.extra@) == Seq::<(Seq<char>, Seq<char>)>::empty(),
            r.wf(),
    {
        let r = JsonMetadata::new(visible_name, parent, DocType::CollectionType, Vec::new());
        assert(tail_view(r.extra@) =~= Seq::<(Seq<char>, Seq<char>)>::empty());
        r
    }

    /// A copy of the record.
    pub fn duplicate(&self) -> (r: JsonMetadata)
        ensures
            r@ == self@,
    {
        JsonMetadata {
            parent: self.parent.clone(),
            visible_name: self.visible_name.clone(),
            doc_type: self.doc_type,
            extra: clone_tail(&self.extra),
        }
    }
}

/// A copy of a tail.
fn clone_tail(t: &Vec<(String, String)>) -> (r: Vec<(String, String)>)
    ensures
        r@ == t@,
{
    let mut r: Vec<(String, String)> = Vec::new();
    let mut i: usize = 0;
    while i < t.len()
        invariant
            i <= t@.len(),
            r@ == t@.subrange(0, i as int),
        decreases t@.len() - i,
    {
        let (k, v) = &t[i];
        r.push((k.clone(), v.clone()));
        proof {
            assert(t@.subrange(0, i + 1) == t@.subrange(0, i as int).push(t@[i as int]));
        }
        i = i + 1;
    }
    proof {
        assert(t@ == t@.subrange(0, t@.len() as int));
    }
    r
}

/// The decimal notation of `n`.
pub fn decimal_string(n: u64) -> (r: String)
    ensures
        r@ == decimal(n as nat),
    decreases n,
{
    let digits = "0123456789";
    proof {
        reveal_strlit("0123456789");
        assert(digits@ == seq!['0', '1', '2', '3', '4', '5', '6', '7', '8', '9']);
    }
    let d = (n % 10) as usize;
    let last = digits.substring_char(d, d + 1);
    proof {
        assert(last@ =~= seq![digit_char((n % 10) as nat)]);
    }
    if n < 10 {
        String::from_str(last)
    } else {
        let mut s = decimal_string(n / 10);
        s.append(last);
        proof {
            assert(s@ =~= decimal(n as nat));
        }
        s
    }
}

} // verus!
