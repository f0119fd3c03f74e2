//! The server's per-document state: the latest text of each open document and
//! the type annotations of its last compilation.

use crate::hover::TypeAnnotation;
use vstd::hash_map::StringHashMap;
use vstd::prelude::*;

verus! {

/// What the server knows of one open document.
pub struct DocumentModel {
    pub text: Seq<char>,
    pub annotations: Seq<TypeAnnotation>,
}

/// The open documents, keyed by URI.
pub struct DocumentStore {
    texts: StringHashMap<String>,
    annotations: StringHashMap<Vec<TypeAnnotation>>,
}

/// The store after the text of `uri` became `text`: a new document starts
/// without annotations, a known one keeps those it had.
pub open spec fn spec_set_text(m: Map<Seq<char>, DocumentModel>, uri: Seq<char>, text: Seq<char>) -> Map<
    Seq<char>,
    DocumentModel,
> {
    let annotations = if m.contains_key(uri) {
        m[uri].annotations
    } else {
        Seq::empty()
    };
    m.insert(uri, DocumentModel { text, annotations })
}

/// The store after a compilation of `uri` produced `annotations`; nothing
/// changes where the document was closed meanwhile.
pub open spec fn spec_set_annotations(
    m: Map<Seq<char>, DocumentModel>,
    uri: Seq<char>,
    annotations: Seq<TypeAnnotation>,
) -> Map<Seq<char>, DocumentModel> {
    if m.contains_key(uri) {
        m.insert(uri, DocumentModel { text: m[uri].text, annotations })
    } else {
        m
    }
}

impl View for DocumentStore {
    type V = Map<Seq<char>, DocumentModel>;

    closed spec fn view(&self) -> Map<Seq<char>, DocumentModel> {
        Map::new(
            |uri: Seq<char>| self.texts@.contains_key(uri),
            |uri: Seq<char>|
                DocumentModel { text: self.texts@[uri]@, annotations: self.annotations@[uri]@ },
        )
    }
}

impl DocumentStore {
    /// Both maps know the same documents.
    #[verifier::type_invariant]
    closed spec fn wf(&self) -> bool {
        self.texts@.dom() =~= self.annotations@.dom()
    }

    /// A store with no open document.
    pub fn new() -> (s: DocumentStore)
        ensures
            s@ == Map::<Seq<char>, DocumentModel>::empty(),
    {
        let s = DocumentStore { texts: StringHashMap::new(), annotations: StringHashMap::new() };
        assert(s@ =~= Map::<Seq<char>, DocumentModel>::empty());
        s
    }

    /// Moves the two maps out, leaving an empty store behind.
    fn take_maps(&mut self) -> (r: (StringHashMap<String>, StringHashMap<Vec<TypeAnnotation>>))
        ensures
            r.0@.dom() =~= r.1@.dom(),
            final(self)@ == Map::<Seq<char>, DocumentModel>::empty(),
            old(self)@ == (DocumentStore { texts: r.0, annotations: r.1 })@,
    {
        let mut taken = DocumentStore::new();
        std::mem::swap(self, &mut taken);
        proof {
            use_type_invariant(&taken);
        }
        let DocumentStore { texts, annotations } = taken;
        (texts, annotations)
    }

    /// Records `text` as the current text of `uri`, opening the document if it
    /// was not open.
    pub fn set_text(&mut self, uri: &str, text: String)
        ensures
            final(self)@ == spec_set_text(old(self)@, uri@, text@),
    {
        proof {
            use_type_invariant(&*self);
        }
        let ghost old_view = self@;
        let (mut texts, mut annotations) = self.take_maps();
        if !annotations.contains_key(uri) {
            annotations.insert(uri.to_owned(), Vec::new());
        }
        texts.insert(uri.to_owned(), text);
        *self = DocumentStore { texts, annotations };
        assert(self@ =~= spec_set_text(old_view, uri@, text@));
    }

    /// Records the annotations of a compilation of `uri`, if it is still open.
    pub fn set_annotations(&mut self, uri: &str, new_annotations: Vec<TypeAnnotation>)
        ensures
            final(self)@ == spec_set_annotations(old(self)@, uri@, new_annotations@),
    {
        proof {
            use_type_invariant(&*self);
        }
        let ghost old_view = self@;
        let (texts, mut annotations) = self.take_maps();
        if texts.contains_key(uri) {
            annotations.insert(uri.to_owned(), new_annotations);
        }
        *self = DocumentStore { texts, annotations };
        assert(self@ =~= spec_set_annotations(old_view, uri@, new_annotations@));
    }

    /// Forgets the document `uri`.
    pub fn close(&mut self, uri: &str)
        ensures
            final(self)@ == old(self)@.remove(uri@),
    {
        proof {
            use_type_invariant(&*self);
        }
        let ghost old_view = self@;
        let (mut texts, mut annotations) = self.take_maps();
        texts.remove(uri);
        annotations.remove(uri);
        *self = DocumentStore { texts, annotations };
        assert(self@ =~= old_view.remove(uri@));
    }

    /// A copy of the current text of `uri`, if it is open.
    pub fn text(&self, uri: &str) -> (r: Option<String>)
        ensures
            match r {
                Some(t) => self@.contains_key(uri@) && t@ == self@[uri@].text,
                None => !self@.contains_key(uri@),
            },
    {
        proof {
            use_type_invariant(self);
        }
        match self.texts.get(uri) {
            Some(t) => Some(t.clone()),
            None => None,
        }
    }

    /// The annotations of `uri`, if it is open.
    pub fn annotations(&self, uri: &str) -> (r: Option<&Vec<TypeAnnotation>>)
        ensures
            match r {
                Some(a) => self@.contains_key(uri@) && a@ == self@[uri@].annotations,
                None => !self@.contains_key(uri@),
            },
    {
        proof {
            use_type_invariant(self);
        }
        if self.texts.contains_key(uri) {
            self.annotations.get(uri)
        } else {
            None
        }
    }
}

/// A read after a write of the text gives the text written, and leaves every
/// other document as it was.
pub proof fn lemma_text_read_after_write(
    m: Map<Seq<char>, DocumentModel>,
    uri: Seq<char>,
    text: Seq<char>,
    other: Seq<char>,
)
    ensures
        spec_set_text(m, uri, text).contains_key(uri),
        spec_set_text(m, uri, text)[uri].text == text,
        other != uri ==> spec_set_text(m, uri, text).contains_key(other) == m.contains_key(other),
        other != uri && m.contains_key(other) ==> spec_set_text(m, uri, text)[other] == m[other],
{
}

/// Recording the annotations of a compilation never changes the text of any
/// document, nor which documents are open: a text written before the
/// compilation finishes is the one read after it.
pub proof fn lemma_annotations_keep_text(
    m: Map<Seq<char>, DocumentModel>,
    uri: Seq<char>,
    text: Seq<char>,
    annotations: Seq<TypeAnnotation>,
)
    ensures
        spec_set_annotations(m, uri, annotations).dom() == m.dom(),
        forall|u: Seq<char>|
            #[trigger] m.contains_key(u) ==> spec_set_annotations(m, uri, annotations)[u].text
                == m[u].text,
        spec_set_annotations(spec_set_text(m, uri, text), uri, annotations)[uri].text == text,
        spec_set_annotations(spec_set_text(m, uri, text), uri, annotations)[uri].annotations
            == annotations,
{
    assert(spec_set_annotations(m, uri, annotations).dom() =~= m.dom());
}

/// A closed document is not known, and its annotations, should a compilation
/// started before the close finish after it, are dropped.
pub proof fn lemma_close_forgets(
    m: Map<Seq<char>, DocumentModel>,
    uri: Seq<char>,
    annotations: Seq<TypeAnnotation>,
)
    ensures
        !m.remove(uri).contains_key(uri),
        spec_set_annotations(m.remove(uri), uri, annotations) == m.remove(uri),
{
}

} // verus!
