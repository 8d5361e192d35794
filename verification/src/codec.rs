//! Notes as TOML documents.

use crate::document::{
    lemma_within_more, toml_from_str, toml_parse, toml_render, toml_to_string, within, TomlTable,
    TomlValue, ValueView, MAX_NESTING,
};
use crate::error::ErrorKind;
use crate::merges::{strings_view, Merge, MergeView, Merges};
use crate::nesting::{nests_within, spec_nesting};
use crate::note::{Note, NoteView, NOTE_VERSION};
use vstd::prelude::*;
use vstd::string::*;
use vstd::utf8::encode_utf8;

verus! {

/// Whether a table holds a string under a key.
pub open spec fn has_string(t: Map<Seq<char>, ValueView>, key: Seq<char>) -> bool {
    t.dom().contains(key) && t[key] is String
}

/// The strings of an array of strings; `None` where some value of the array is no string.
pub open spec fn decode_strings(a: Seq<ValueView>) -> Option<Seq<Seq<char>>> {
    if forall|i: int| 0 <= i < a.len() ==> (#[trigger] a[i]) is String {
        Some(Seq::new(a.len(), |i: int| a[i]->String_0))
    } else {
        None
    }
}

/// The array of strings that holds the given strings.
pub open spec fn encode_strings(s: Seq<Seq<char>>) -> Seq<ValueView> {
    Seq::new(s.len(), |i: int| ValueView::String(s[i]))
}

/// The merge record that a value holds: a table with a string under each of the four
/// names and an array of strings under `parents_oid`. Other keys are passed over.
pub open spec fn decode_merge(v: ValueView) -> Option<MergeView> {
    if v is Table && has_string(v->Table_0, "merge_oid"@) && has_string(
        v->Table_0,
        "target_parent_oid"@,
    ) && has_string(v->Table_0, "target_parent_reference"@) && has_string(
        v->Table_0,
        "merge_reference"@,
    ) && v->Table_0.dom().contains("parents_oid"@) && v->Table_0["parents_oid"@] is Array
        && decode_strings(v->Table_0["parents_oid"@]->Array_0) is Some {
        let t = v->Table_0;
        Some(
            MergeView {
                merge_oid: t["merge_oid"@]->String_0,
                target_parent_oid: t["target_parent_oid"@]->String_0,
                target_parent_reference: t["target_parent_reference"@]->String_0,
                parents_oid: decode_strings(t["parents_oid"@]->Array_0).unwrap(),
                merge_reference: t["merge_reference"@]->String_0,
            },
        )
    } else {
        None
    }
}

/// The table that holds a merge record.
pub open spec fn encode_merge(m: MergeView) -> ValueView {
    ValueView::Table(
        Map::<Seq<char>, ValueView>::empty().insert(
            "merge_oid"@,
            ValueView::String(m.merge_oid),
        ).insert("target_parent_oid"@, ValueView::String(m.target_parent_oid)).insert(
            "target_parent_reference"@,
            ValueView::String(m.target_parent_reference),
        ).insert("parents_oid"@, ValueView::Array(encode_strings(m.parents_oid))).insert(
            "merge_reference"@,
            ValueView::String(m.merge_reference),
        ),
    )
}

/// Whether a value has the shape of a note: a table with a string `_note_origin`, an
/// integer `_version` that fits in a byte, and a table `merges` of merge records.
pub open spec fn is_note_shape(v: ValueView) -> bool {
    &&& v is Table
    &&& has_string(v->Table_0, "_note_origin"@)
    &&& v->Table_0.dom().contains("_version"@)
    &&& v->Table_0["_version"@] is Integer
    &&& 0 <= v->Table_0["_version"@]->Integer_0 <= 255
    &&& v->Table_0.dom().contains("merges"@)
    &&& v->Table_0["merges"@] is Table
    &&& forall|k: Seq<char>| #[trigger]
        v->Table_0["merges"@]->Table_0.dom().contains(k) ==> decode_merge(
            v->Table_0["merges"@]->Table_0[k],
        ) is Some
}

/// The note that a document holds. A document of another shape is no note; a note of
/// another version than this library's is not read. Other keys are passed over.
pub open spec fn decode_note(v: ValueView) -> Result<NoteView, ErrorKind> {
    if !is_note_shape(v) {
        Err(ErrorKind::InvalidNote)
    } else if v->Table_0["_version"@]->Integer_0 != NOTE_VERSION {
        Err(ErrorKind::VersionMismatch)
    } else {
        let t = v->Table_0;
        let mm = t["merges"@]->Table_0;
        Ok(
            NoteView {
                note_origin: t["_note_origin"@]->String_0,
                version: t["_version"@]->Integer_0 as u8,
                merges: Map::new(
                    |k: Seq<char>| mm.dom().contains(k),
                    |k: Seq<char>| decode_merge(mm[k]).unwrap(),
                ),
            },
        )
    }
}

/// The document that holds a note.
pub open spec fn encode_note(n: NoteView) -> ValueView {
    ValueView::Table(
        Map::<Seq<char>, ValueView>::empty().insert(
            "_note_origin"@,
            ValueView::String(n.note_origin),
        ).insert("_version"@, ValueView::Integer(n.version as i64)).insert(
            "merges"@,
            ValueView::Table(
                Map::new(
                    |k: Seq<char>| n.merges.dom().contains(k),
                    |k: Seq<char>| encode_merge(n.merges[k]),
                ),
            ),
        ),
    )
}

/// The note that a text holds: the note of the document that the text is. A text that is
/// nested too deeply is not read.
pub open spec fn decode_text(text: Seq<char>) -> Result<NoteView, ErrorKind> {
    if spec_nesting(encode_utf8(text)) > MAX_NESTING {
        Err(ErrorKind::InvalidNote)
    } else {
        match toml_parse(text) {
            Some(tree) => decode_note(tree),
            None => Err(ErrorKind::InvalidNote),
        }
    }
}

/// The text that holds a note: the text of the document of the note.
pub open spec fn encode_text(n: NoteView) -> Option<Seq<char>> {
    toml_render(encode_note(n))
}

/// The string under a key of a table.
fn get_string(t: &TomlTable, key: &str) -> (r: Option<String>)
    ensures
        r is Some <==> has_string(t@, key@),
        r matches Some(s) ==> t@[key@] == ValueView::String(s@),
{
    match t.get(key) {
        Some(v) => match v.as_str() {
            Some(s) => Some(s.to_string()),
            None => None,
        },
        None => None,
    }
}

/// The strings of an array of strings.
fn strings_from_toml(a: &Vec<TomlValue>) -> (r: Option<Vec<String>>)
    ensures
        r is Some <==> decode_strings(Seq::new(a@.len(), |i: int| a@[i].view())) is Some,
        r matches Some(v) ==> Some(strings_view(v@)) == decode_strings(
            Seq::new(a@.len(), |i: int| a@[i].view()),
        ),
{
    let ghost views = Seq::new(a@.len(), |i: int| a@[i].view());
    let mut out: Vec<String> = Vec::new();
    let mut i: usize = 0;
    while i < a.len()
        invariant
            i <= a@.len(),
            out@.len() == i,
            views == Seq::new(a@.len(), |i: int| a@[i].view()),
            forall|j: int| 0 <= j < i ==> views[j] == ValueView::String(#[trigger] out@[j]@),
        decreases a@.len() - i,
    {
        match a[i].as_str() {
            Some(s) => {
                out.push(s.to_string());
            },
            None => {
                assert(!(views[i as int] is String));
                return None;
            },
        }
        i += 1;
    }
    proof {
        assert forall|j: int| 0 <= j < views.len() implies (#[trigger] views[j]) is String by {
            assert(views[j] == ValueView::String(out@[j]@));
        }
        assert(strings_view(out@) =~= decode_strings(views).unwrap());
    }
    Some(out)
}

/// The array of strings that holds the given strings.
fn strings_to_toml(v: &Vec<String>) -> (r: TomlValue)
    ensures
        r.view() == ValueView::Array(encode_strings(strings_view(v@))),
{
    let mut out: Vec<TomlValue> = Vec::new();
    let mut i: usize = 0;
    while i < v.len()
        invariant
            i <= v@.len(),
            out@.len() == i,
            forall|j: int| 0 <= j < i ==> (#[trigger] out@[j]).view() == ValueView::String(v@[j]@),
        decreases v@.len() - i,
    {
        let item = TomlValue::String(v[i].clone());
        proof {
            item.lemma_view();
        }
        out.push(item);
        i += 1;
    }
    let r = TomlValue::Array(out);
    proof {
        r.lemma_view();
        assert(Seq::new(out@.len(), |i: int| out@[i].view()) =~= encode_strings(
            strings_view(v@),
        ));
    }
    r
}

impl Merge {
    /// The merge record that a value of a document holds.
    pub fn from_toml(v: &TomlValue) -> (r: Option<Merge>)
        ensures
            r is Some <==> decode_merge(v.view()) is Some,
            r matches Some(m) ==> Some(m@) == decode_merge(v.view()),
    {
        let t = match v.as_table() {
            Some(t) => t,
            None => {
                return None;
            },
        };
        let merge_oid = match get_string(t, "merge_oid") {
            Some(s) => s,
            None => {
                return None;
            },
        };
        let target_parent_oid = match get_string(t, "target_parent_oid") {
            Some(s) => s,
            None => {
                return None;
            },
        };
        let target_parent_reference = match get_string(t, "target_parent_reference") {
            Some(s) => s,
            None => {
                return None;
            },
        };
        let merge_reference = match get_string(t, "merge_reference") {
            Some(s) => s,
            None => {
                return None;
            },
        };
        let parents = match t.get("parents_oid") {
            Some(p) => p,
            None => {
                return None;
            },
        };
        let array = match parents.as_array() {
            Some(a) => a,
            None => {
                return None;
            },
        };
        let parents_oid = match strings_from_toml(array) {
            Some(p) => p,
            None => {
                return None;
            },
        };
        Some(
            Merge {
                merge_oid: merge_oid,
                target_parent_oid: target_parent_oid,
                target_parent_reference: target_parent_reference,
                parents_oid: parents_oid,
                merge_reference: merge_reference,
            },
        )
    }

    /// The table of a document that holds the merge record.
    pub fn to_toml(&self) -> (r: TomlValue)
        ensures
            r.view() == encode_merge(self@),
    {
        let mut t = TomlTable::new();
        let merge_oid = TomlValue::String(self.merge_oid.clone());
        let target_parent_oid = TomlValue::String(self.target_parent_oid.clone());
        let target_parent_reference = TomlValue::String(self.target_parent_reference.clone());
        let merge_reference = TomlValue::String(self.merge_reference.clone());
        proof {
            merge_oid.lemma_view();
            target_parent_oid.lemma_view();
            target_parent_reference.lemma_view();
            merge_reference.lemma_view();
        }
        t.insert("merge_oid".to_string(), merge_oid);
        t.insert("target_parent_oid".to_string(), target_parent_oid);
        t.insert("target_parent_reference".to_string(), target_parent_reference);
        t.insert("parents_oid".to_string(), strings_to_toml(&self.parents_oid));
        t.insert("merge_reference".to_string(), merge_reference);
        let r = TomlValue::Table(t);
        proof {
            r.lemma_view();
        }
        r
    }
}

impl Note {
    /// The note that a document holds.
    pub fn from_toml(v: &TomlValue) -> (r: Result<Note, ErrorKind>)
        ensures
            r is Ok <==> decode_note(v.view()) is Ok,
            r matches Ok(n) ==> Ok::<NoteView, ErrorKind>(n@) == decode_note(v.view()),
            r matches Err(e) ==> Err::<NoteView, ErrorKind>(e) == decode_note(v.view()),
    {
        let t = match v.as_table() {
            Some(t) => t,
            None => {
                return Err(ErrorKind::InvalidNote);
            },
        };
        let origin = match get_string(t, "_note_origin") {
            Some(s) => s,
            None => {
                return Err(ErrorKind::InvalidNote);
            },
        };
        let version = match t.get("_version") {
            Some(x) => match x.as_integer() {
                Some(i) => i,
                None => {
                    return Err(ErrorKind::InvalidNote);
                },
            },
            None => {
                return Err(ErrorKind::InvalidNote);
            },
        };
        if version < 0 || version > 255 {
            return Err(ErrorKind::InvalidNote);
        }
        let mm = match t.get("merges") {
            Some(x) => match x.as_table() {
                Some(mm) => mm,
                None => {
                    return Err(ErrorKind::InvalidNote);
                },
            },
            None => {
                return Err(ErrorKind::InvalidNote);
            },
        };
        proof {
            use_type_invariant(mm);
        }
        let ghost table = mm@;
        let mut merges = Merges::new();
        let n = mm.len();
        let mut i: usize = 0;
        while i < n
            invariant
                i <= n,
                n == mm.keys().len(),
                n == mm.values().len(),
                mm.wf(),
                table == mm@,
                v.view() is Table,
                v.view()->Table_0.dom().contains("merges"@),
                v.view()->Table_0["merges"@] == ValueView::Table(table),
                forall|j: int| 0 <= j < i ==> decode_merge(#[trigger] mm.values()[j]) is Some,
                forall|k: Seq<char>| #[trigger]
                    merges@.dom().contains(k) <==> exists|j: int| 0 <= j < i && mm.keys()[j] == k,
                forall|j: int|
                    0 <= j < i ==> merges@[#[trigger] mm.keys()[j]] == decode_merge(
                        mm.values()[j],
                    ).unwrap(),
            decreases n - i,
        {
            let ghost before = merges@;
            let key = mm.key_at(i).to_string();
            match Merge::from_toml(mm.value_at(i)) {
                Some(merge) => {
                    merges.insert(key, merge);
                    proof {
                        assert forall|k: Seq<char>| #[trigger]
                            merges@.dom().contains(k) <==> exists|j: int|
                                0 <= j < i + 1 && mm.keys()[j] == k by {
                            if before.dom().contains(k) {
                                let j = choose|j: int| 0 <= j < i && mm.keys()[j] == k;
                                assert(0 <= j < i + 1 && mm.keys()[j] == k);
                            }
                            if exists|j: int| 0 <= j < i + 1 && mm.keys()[j] == k {
                                let j = choose|j: int| 0 <= j < i + 1 && mm.keys()[j] == k;
                                if j < i {
                                    assert(before.dom().contains(k));
                                }
                            }
                        }
                        assert forall|j: int| 0 <= j < i + 1 implies merges@[#[trigger] mm.keys()[j]]
                            == decode_merge(mm.values()[j]).unwrap() by {
                            if j < i {
                                assert(mm.keys()[j] != mm.keys()[i as int]);
                            }
                        }
                    }
                },
                None => {
                    proof {
                        mm.lemma_view_at(i as int);
                    }
                    return Err(ErrorKind::InvalidNote);
                },
            }
            i += 1;
        }
        proof {
            assert forall|k: Seq<char>| #[trigger] table.dom().contains(k) implies decode_merge(
                table[k],
            ) is Some && merges@.dom().contains(k) && merges@[k] == decode_merge(
                table[k],
            ).unwrap() by {
                mm.lemma_dom(k);
                let j = choose|j: int| 0 <= j < mm.keys().len() && mm.keys()[j] == k;
                mm.lemma_view_at(j);
            }
            assert forall|k: Seq<char>| merges@.dom().contains(k) implies table.dom().contains(
                k,
            ) by {
                let j = choose|j: int| 0 <= j < n && mm.keys()[j] == k;
                mm.lemma_view_at(j);
            }
            assert(is_note_shape(v.view()));
            assert(merges@ =~= Map::new(
                |k: Seq<char>| table.dom().contains(k),
                |k: Seq<char>| decode_merge(table[k]).unwrap(),
            ));
        }
        if version != 1 {
            return Err(ErrorKind::VersionMismatch);
        }
        Ok(Note { _note_origin: origin, _version: 1, merges: merges })
    }

    /// The document that holds the note.
    pub fn to_toml(&self) -> (r: TomlValue)
        ensures
            r.view() == encode_note(self@),
    {
        proof {
            use_type_invariant(&self.merges);
        }
        let mut mm = TomlTable::new();
        let n = self.merges.len();
        let mut i: usize = 0;
        while i < n
            invariant
                i <= n,
                n == self.merges.keys().len(),
                n == self.merges.values().len(),
                self.merges.wf(),
                forall|k: Seq<char>| #[trigger]
                    mm@.dom().contains(k) <==> exists|j: int|
                        0 <= j < i && self.merges.keys()[j] == k,
                forall|j: int|
                    0 <= j < i ==> mm@[#[trigger] self.merges.keys()[j]] == encode_merge(
                        self.merges.values()[j],
                    ),
            decreases n - i,
        {
            let ghost before = mm@;
            let key = self.merges.key_at(i).to_string();
            mm.insert(key, self.merges.value_at(i).to_toml());
            proof {
                assert forall|k: Seq<char>| #[trigger]
                    mm@.dom().contains(k) <==> exists|j: int|
                        0 <= j < i + 1 && self.merges.keys()[j] == k by {
                    if before.dom().contains(k) {
                        let j = choose|j: int| 0 <= j < i && self.merges.keys()[j] == k;
                        assert(0 <= j < i + 1 && self.merges.keys()[j] == k);
                    }
                    if exists|j: int| 0 <= j < i + 1 && self.merges.keys()[j] == k {
                        let j = choose|j: int| 0 <= j < i + 1 && self.merges.keys()[j] == k;
                        if j < i {
                            assert(before.dom().contains(k));
                        }
                    }
                }
                assert forall|j: int| 0 <= j < i + 1 implies mm@[#[trigger] self.merges.keys()[j]]
                    == encode_merge(self.merges.values()[j]) by {
                    if j < i {
                        assert(self.merges.keys()[j] != self.merges.keys()[i as int]);
                    }
                }
            }
            i += 1;
        }
        proof {
            let want = Map::new(
                |k: Seq<char>| self@.merges.dom().contains(k),
                |k: Seq<char>| encode_merge(self@.merges[k]),
            );
            assert forall|k: Seq<char>| #[trigger] mm@.dom().contains(k) <==> want.dom().contains(
                k,
            ) by {
                if mm@.dom().contains(k) {
                    let j = choose|j: int| 0 <= j < n && self.merges.keys()[j] == k;
                    self.merges.lemma_view_at(j);
                }
                if want.dom().contains(k) {
                    let j = self.merges.keys().index_of(k);
                    assert(0 <= j < n && self.merges.keys()[j] == k);
                }
            }
            assert forall|k: Seq<char>| mm@.dom().contains(k) implies #[trigger] mm@[k]
                == want[k] by {
                let j = choose|j: int| 0 <= j < n && self.merges.keys()[j] == k;
                self.merges.lemma_view_at(j);
            }
            assert(mm@ =~= want);
        }
        let origin = TomlValue::String(self._note_origin.clone());
        let version = TomlValue::Integer(self._version as i64);
        let merges = TomlValue::Table(mm);
        proof {
            origin.lemma_view();
            version.lemma_view();
            merges.lemma_view();
        }
        let mut t = TomlTable::new();
        t.insert("_note_origin".to_string(), origin);
        t.insert("_version".to_string(), version);
        t.insert("merges".to_string(), merges);
        let r = TomlValue::Table(t);
        proof {
            r.lemma_view();
        }
        r
    }

    /// The note that a text holds.
    pub fn decode(text: &str) -> (r: Result<Note, ErrorKind>)
        ensures
            r is Ok <==> decode_text(text@) is Ok,
            r matches Ok(n) ==> Ok::<NoteView, ErrorKind>(n@) == decode_text(text@),
            r matches Err(e) ==> Err::<NoteView, ErrorKind>(e) == decode_text(text@),
    {
        if !nests_within(text, MAX_NESTING) {
            return Err(ErrorKind::InvalidNote);
        }
        match toml_from_str(text) {
            Ok(tree) => Self::from_toml(&tree),
            Err(_) => Err(ErrorKind::InvalidNote),
        }
    }

    /// The text that holds the note, where the document of the note can be written. The
    /// document has five levels, whatever the number of its records.
    pub fn encode(&self) -> (r: Result<String, ErrorKind>)
        ensures
            r is Ok <==> encode_text(self@) is Some,
            r matches Ok(s) ==> Some(s@) == encode_text(self@),
            r matches Err(e) ==> e == ErrorKind::InvalidNote,
    {
        let tree = self.to_toml();
        proof {
            lemma_note_levels(self@);
            lemma_within_more(tree.view(), 5, MAX_NESTING as nat);
        }
        match toml_to_string(&tree) {
            Ok(s) => Ok(s),
            Err(_) => Err(ErrorKind::InvalidNote),
        }
    }
}

/// The document of a note has five levels at most.
pub proof fn lemma_note_levels(n: NoteView)
    ensures
        within(encode_note(n), 5),
{
    let root = encode_note(n);
    let merges = root->Table_0["merges"@];
    assert forall|k: Seq<char>| #[trigger] merges->Table_0.dom().contains(k) implies within(
        merges->Table_0[k],
        3,
    ) by {
        let m = n.merges[k];
        let record = encode_merge(m);
        let parents = ValueView::Array(encode_strings(m.parents_oid));
        assert forall|i: int| 0 <= i < encode_strings(m.parents_oid).len() implies within(
            #[trigger] encode_strings(m.parents_oid)[i],
            1,
        ) by {}
        assert(within(parents, 2));
        assert forall|f: Seq<char>| #[trigger] record->Table_0.dom().contains(f) implies within(
            record->Table_0[f],
            2,
        ) by {}
        assert(within(record, 3));
    }
    assert(within(merges, 4));
    assert forall|f: Seq<char>| #[trigger] root->Table_0.dom().contains(f) implies within(
        root->Table_0[f],
        4,
    ) by {}
}

/// The names of the fields of a merge record and of a note differ from each other.
proof fn lemma_names_differ()
    ensures
        "merge_oid"@.len() == 9,
        "target_parent_oid"@.len() == 17,
        "target_parent_reference"@.len() == 23,
        "parents_oid"@.len() == 11,
        "merge_reference"@.len() == 15,
        "_note_origin"@.len() == 12,
        "_version"@.len() == 8,
        "merges"@.len() == 6,
{
    reveal_strlit("merge_oid");
    reveal_strlit("target_parent_oid");
    reveal_strlit("target_parent_reference");
    reveal_strlit("parents_oid");
    reveal_strlit("merge_reference");
    reveal_strlit("_note_origin");
    reveal_strlit("_version");
    reveal_strlit("merges");
}

/// A merge record is read back from the table that holds it.
pub proof fn lemma_decode_encode_merge(m: MergeView)
    ensures
        decode_merge(encode_merge(m)) == Some(m),
{
    lemma_names_differ();
    let a = encode_strings(m.parents_oid);
    assert(decode_strings(a).unwrap() =~= m.parents_oid);
}

/// A note of this library's version is read back from the document that holds it; one of
/// another version is refused for its version.
pub proof fn lemma_decode_encode_note(n: NoteView)
    ensures
        n.version == NOTE_VERSION ==> decode_note(encode_note(n)) == Ok::<NoteView, ErrorKind>(n),
        n.version != NOTE_VERSION ==> decode_note(encode_note(n)) == Err::<NoteView, ErrorKind>(
            ErrorKind::VersionMismatch,
        ),
{
    lemma_names_differ();
    let v = encode_note(n);
    let mm = v->Table_0["merges"@]->Table_0;
    assert forall|k: Seq<char>| #[trigger] mm.dom().contains(k) implies decode_merge(mm[k])
        == Some(n.merges[k]) by {
        lemma_decode_encode_merge(n.merges[k]);
    }
    assert(is_note_shape(v));
    if n.version == NOTE_VERSION {
        let d = decode_note(v)->Ok_0;
        assert(d.merges =~= n.merges);
    }
}

} // verus!
