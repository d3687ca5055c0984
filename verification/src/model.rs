//! The object and ref data model of the protocol: a ref target (`Object`),
//! an advertised reference (`Ref`), and the two batched request records
//! (`FetchObject`, `PushObject`). Pure values; each exec type has a
//! specification-level model reached through its view.
use vstd::prelude::*;

verus! {

/// A ref target: a symbolic indirection to another ref, or a twenty-byte
/// content address.
#[derive(Debug, PartialEq, Eq)]
pub enum Object {
    /// `@<name>` on the wire: points at the ref called `name`.
    Link(String),
    /// Raw content hash; well-formed values hold exactly twenty bytes and
    /// travel as forty hex characters.
    Hash(Vec<u8>),
}

/// Specification-level value of an [`Object`].
#[verifier::ext_equal]
pub enum ObjectModel {
    Link(Seq<char>),
    Hash(Seq<u8>),
}

impl ObjectModel {
    /// A content address is exactly twenty bytes.
    pub open spec fn wf(self) -> bool {
        match self {
            ObjectModel::Link(_) => true,
            ObjectModel::Hash(h) => h.len() == 20,
        }
    }
}

impl DeepView for Object {
    type V = ObjectModel;

    open spec fn deep_view(&self) -> ObjectModel {
        self.view()
    }
}

impl View for Object {
    type V = ObjectModel;

    open spec fn view(&self) -> ObjectModel {
        match self {
            Object::Link(s) => ObjectModel::Link(s@),
            Object::Hash(h) => ObjectModel::Hash(h@),
        }
    }
}

/// One advertised remote reference: a target, the ref's name, and an
/// advisory flag telling the client the value has not changed since a
/// prior listing. The flag only affects the rendered suffix.
#[derive(Debug, PartialEq, Eq)]
pub struct Ref {
    pub object: Object,
    pub name: String,
    pub unchanged: bool,
}

/// Specification-level value of a [`Ref`].
#[verifier::ext_equal]
pub struct RefModel {
    pub object: ObjectModel,
    pub name: Seq<char>,
    pub unchanged: bool,
}

impl DeepView for Ref {
    type V = RefModel;

    open spec fn deep_view(&self) -> RefModel {
        self.view()
    }
}

impl View for Ref {
    type V = RefModel;

    open spec fn view(&self) -> RefModel {
        RefModel { object: self.object@, name: self.name@, unchanged: self.unchanged }
    }
}

/// One `fetch` request line: the object to materialize, the ref name it was
/// requested under, and the object-store file path derived from the literal
/// hash text (its first two characters as a subdirectory of the store root,
/// the rest as the file name).
#[derive(Debug, PartialEq, Eq)]
pub struct FetchObject {
    pub object: Object,
    pub name: String,
    pub path: String,
}

/// Specification-level value of a [`FetchObject`].
#[verifier::ext_equal]
pub struct FetchModel {
    pub object: ObjectModel,
    pub name: Seq<char>,
    pub path: Seq<char>,
}

impl DeepView for FetchObject {
    type V = FetchModel;

    open spec fn deep_view(&self) -> FetchModel {
        self.view()
    }
}

impl View for FetchObject {
    type V = FetchModel;

    open spec fn view(&self) -> FetchModel {
        FetchModel { object: self.object@, name: self.name@, path: self.path@ }
    }
}

/// One `push` request line `[+]<src>:<dst>`: a leading `+` asks for a forced
/// update and is stripped from `src`.
#[derive(Debug, PartialEq, Eq)]
pub struct PushObject {
    pub forced: bool,
    pub src: String,
    pub dst: String,
}

/// Specification-level value of a [`PushObject`].
#[verifier::ext_equal]
pub struct PushModel {
    pub forced: bool,
    pub src: Seq<char>,
    pub dst: Seq<char>,
}

impl DeepView for PushObject {
    type V = PushModel;

    open spec fn deep_view(&self) -> PushModel {
        self.view()
    }
}

impl View for PushObject {
    type V = PushModel;

    open spec fn view(&self) -> PushModel {
        PushModel { forced: self.forced, src: self.src@, dst: self.dst@ }
    }
}

} // verus!
