//! Domain names.
use vstd::prelude::*;

use crate::keymap::{Duplicate, Key};

verus! {

/// A domain name in lower case: its labels, the most specific one first, and whether it is
/// fully qualified. Two names are the same when both parts are.
#[derive(Debug)]
pub struct LowerName {
    labels: Vec<Vec<u8>>,
    fqdn: bool,
}

impl LowerName {
    /// The name is in lower case.
    #[verifier::type_invariant]
    closed spec fn wf(&self) -> bool {
        is_lower_case(self.deep_view())
    }
}

/// The labels of a name, and whether it is fully qualified.
pub type NameView = (Seq<Seq<u8>>, bool);

impl DeepView for LowerName {
    type V = NameView;

    closed spec fn deep_view(&self) -> NameView {
        (self.labels.deep_view(), self.fqdn)
    }
}

/// The root of the domain name tree.
pub open spec fn root_name() -> NameView {
    (Seq::empty(), true)
}

/// Whether no label holds an ASCII capital letter.
pub open spec fn is_lower_case(name: NameView) -> bool {
    forall|i: int, j: int|
        0 <= i < name.0.len() && 0 <= j < name.0[i].len() ==> !(0x41 <= #[trigger] name.0[i][j]
            <= 0x5a)
}

fn same_bytes(a: &Vec<u8>, b: &Vec<u8>) -> (r: bool)
    ensures
        r == (a.deep_view() == b.deep_view()),
{
    assert(a.deep_view() =~= a@);
    assert(b.deep_view() =~= b@);
    if a.len() != b.len() {
        return false;
    }
    let n: usize = a.len();
    let mut i: usize = 0;
    while i < n
        invariant
            i <= n,
            n == a.len(),
            n == b.len(),
            forall|j: int| 0 <= j < i ==> a@[j] == b@[j],
        decreases n - i,
    {
        if a[i] != b[i] {
            assert(a.deep_view()[i as int] != b.deep_view()[i as int]);
            return false;
        }
        i = i + 1;
    }
    assert(a@ =~= b@);
    true
}

impl Key for LowerName {
    fn same(&self, other: &Self) -> (r: bool) {
        if self.fqdn != other.fqdn {
            return false;
        }
        if self.labels.len() != other.labels.len() {
            assert(self.labels.deep_view().len() != other.labels.deep_view().len());
            return false;
        }
        let n: usize = self.labels.len();
        let mut i: usize = 0;
        while i < n
            invariant
                i <= n,
                n == self.labels.len(),
                n == other.labels.len(),
                forall|j: int|
                    0 <= j < i ==> #[trigger] self.labels.deep_view()[j]
                        == other.labels.deep_view()[j],
            decreases n - i,
        {
            if !same_bytes(&self.labels[i], &other.labels[i]) {
                assert(self.labels.deep_view()[i as int] != other.labels.deep_view()[i as int]);
                return false;
            }
            i = i + 1;
        }
        assert(self.labels.deep_view() =~= other.labels.deep_view());
        true
    }
}

impl Duplicate for u8 {
    fn duplicate(&self) -> (r: Self) {
        *self
    }
}

impl Duplicate for LowerName {
    fn duplicate(&self) -> (r: Self) {
        proof {
            use_type_invariant(self);
        }
        LowerName { labels: self.labels.duplicate(), fqdn: self.fqdn }
    }
}

/// The error of `hickory_proto`.
#[verifier::external_type_specification]
#[verifier::external_body]
pub struct ExProtoError(hickory_proto::ProtoError);

/// The name that `hickory_proto` reads in a text, where it can read one.
pub uninterp spec fn lower_name(text: Seq<char>) -> Option<NameView>;

/// Calls `hickory_proto::rr::LowerName::from_str`, and takes the labels and the qualification
/// of the name that it gives back. What it reads depends on the text alone; it is in lower
/// case, and in a single dot it is the root.
#[verifier::external_body]
fn parse_lower_name(text: &str) -> (r: Result<(Vec<Vec<u8>>, bool), hickory_proto::ProtoError>)
    ensures
        r is Ok <==> lower_name(text@) is Some,
        r matches Ok(name) ==> lower_name(text@) == Some((name.0.deep_view(), name.1))
            && is_lower_case((name.0.deep_view(), name.1)),
        r is Err ==> text@ != seq!['.'],
        r matches Ok(name) ==> text@ == seq!['.'] ==> (name.0.deep_view(), name.1) == root_name(),
{
    match text.parse::<hickory_proto::rr::LowerName>() {
        Ok(name) => Ok((name.iter().map(|label| label.to_vec()).collect(), name.is_fqdn())),
        Err(error) => Err(error),
    }
}

fn lower_case_bytes(label: &Vec<u8>) -> (r: bool)
    ensures
        r == forall|j: int| 0 <= j < label.len() ==> !(0x41 <= #[trigger] label@[j] <= 0x5a),
{
    let n: usize = label.len();
    let mut j: usize = 0;
    while j < n
        invariant
            j <= n,
            n == label.len(),
            forall|h: int| 0 <= h < j ==> !(0x41 <= #[trigger] label@[h] <= 0x5a),
        decreases n - j,
    {
        if 0x41 <= label[j] && label[j] <= 0x5a {
            return false;
        }
        j = j + 1;
    }
    true
}

impl LowerName {
    /// Reads a name in `text`.
    pub fn parse(text: &str) -> (r: Option<LowerName>)
        ensures
            r is Some <==> lower_name(text@) is Some,
            r matches Some(name) ==> lower_name(text@) == Some(name.deep_view()) && is_lower_case(
                name.deep_view(),
            ),
            text@ == seq!['.'] ==> (r matches Some(name) && name.deep_view() == root_name()),
    {
        match parse_lower_name(text) {
            Ok((labels, fqdn)) => Some(LowerName { labels, fqdn }),
            Err(_) => None,
        }
    }

    /// The name with these labels, provided that they are in lower case.
    pub fn from_labels(labels: Vec<Vec<u8>>, fqdn: bool) -> (r: Option<LowerName>)
        ensures
            r is Some <==> is_lower_case((labels.deep_view(), fqdn)),
            r matches Some(name) ==> name.deep_view() == (labels.deep_view(), fqdn),
    {
        let n: usize = labels.len();
        let mut i: usize = 0;
        while i < n
            invariant
                i <= n,
                n == labels.len(),
                forall|h: int, j: int|
                    0 <= h < i && 0 <= j < labels.deep_view()[h].len() ==> !(0x41
                        <= #[trigger] labels.deep_view()[h][j] <= 0x5a),
            decreases n - i,
        {
            assert(labels.deep_view()[i as int] =~= labels@[i as int]@);
            if !lower_case_bytes(&labels[i]) {
                proof {
                    let j = choose|j: int|
                        0 <= j < labels@[i as int].len() && 0x41 <= #[trigger] labels@[i as int]@[j]
                            <= 0x5a;
                    let name: NameView = (labels.deep_view(), fqdn);
                    assert(name.0[i as int].len() == labels@[i as int].len());
                    assert(0x41 <= name.0[i as int][j] <= 0x5a);
                    assert(!is_lower_case(name));
                }
                return None;
            }
            i = i + 1;
        }
        Some(LowerName { labels, fqdn })
    }

    /// The labels, the most specific one first.
    pub fn labels(&self) -> (r: &Vec<Vec<u8>>)
        ensures
            r.deep_view() == self.deep_view().0,
            is_lower_case(self.deep_view()),
    {
        proof {
            use_type_invariant(self);
        }
        &self.labels
    }

    /// Whether the name is fully qualified.
    pub fn is_fqdn(&self) -> (r: bool)
        ensures
            r == self.deep_view().1,
    {
        self.fqdn
    }
}

/// A name is in lower case exactly if no byte of any label is one of `A` to `Z`. The root has no
/// label and is fully qualified.
pub proof fn names_in_lower_case(name: NameView)
    ensures
        is_lower_case(name) <==> forall|i: int, j: int|
            0 <= i < name.0.len() && 0 <= j < name.0[i].len() ==> #[trigger] name.0[i][j] < 0x41
                || name.0[i][j] > 0x5a,
        root_name().0.len() == 0 && root_name().1,
{
}

} // verus!
