//! An app bundle as far as the engine reads it: the roles of its manifest, in
//! order, and the DNA bundles it carries.

use crate::text::strings_equal;
use vstd::prelude::*;

verus! {

/// What a `DnaLocation` stands for.
pub enum DnaLocationView {
    Bundled(Seq<char>),
    Path(Seq<char>),
    Url(Seq<char>),
}

/// Where the DNA of a role is to be found.
#[derive(Debug, PartialEq, Eq)]
pub enum DnaLocation {
    /// Among the resources of the bundle, under this path.
    Bundled(String),
    /// In a file outside the bundle.
    Path(String),
    /// At a URL.
    Url(String),
}

impl View for DnaLocation {
    type V = DnaLocationView;

    open spec fn view(&self) -> DnaLocationView {
        match self {
            DnaLocation::Bundled(p) => DnaLocationView::Bundled(p@),
            DnaLocation::Path(p) => DnaLocationView::Path(p@),
            DnaLocation::Url(u) => DnaLocationView::Url(u@),
        }
    }
}

impl DeepView for DnaLocation {
    type V = DnaLocationView;

    open spec fn deep_view(&self) -> DnaLocationView {
        self@
    }
}

/// What an `AppRoleManifest` stands for.
pub struct RoleView {
    pub name: Seq<char>,
    pub location: Option<DnaLocationView>,
}

/// The DNA part of a role.
#[derive(Debug, PartialEq, Eq)]
pub struct AppRoleDnaManifest {
    /// Where to find the DNA; `None` where the manifest only names a hash.
    pub location: Option<DnaLocation>,
}

/// One role of an app manifest.
#[derive(Debug, PartialEq, Eq)]
pub struct AppRoleManifest {
    /// The name of the role.
    pub name: String,
    /// The DNA that fills the role.
    pub dna: AppRoleDnaManifest,
}

impl View for AppRoleManifest {
    type V = RoleView;

    open spec fn view(&self) -> RoleView {
        RoleView { name: self.name@, location: self.dna.location.deep_view() }
    }
}

impl DeepView for AppRoleManifest {
    type V = RoleView;

    open spec fn deep_view(&self) -> RoleView {
        self@
    }
}

/// What an `AppBundle` stands for.
pub struct AppBundleView {
    pub roles: Seq<RoleView>,
    pub resources: Seq<(Seq<char>, Seq<u8>)>,
}

/// No two roles have the same name.
pub open spec fn spec_roles_distinct(roles: Seq<RoleView>) -> bool {
    forall|i: int, j: int|
        0 <= i < roles.len() && 0 <= j < roles.len() && i != j ==> roles[i].name != roles[j].name
}

/// The first index at which a role named `name` stands; `roles.len()` when
/// there is none.
pub open spec fn spec_role_index(roles: Seq<RoleView>, name: Seq<char>) -> int
    decreases roles.len(),
{
    if roles.len() == 0 {
        0
    } else if roles[0].name == name {
        0
    } else {
        1 + spec_role_index(roles.drop_first(), name)
    }
}

/// `spec_role_index` gives the first role that bears the name, or the length.
pub proof fn lemma_role_index(roles: Seq<RoleView>, name: Seq<char>)
    ensures
        0 <= spec_role_index(roles, name) <= roles.len(),
        spec_role_index(roles, name) < roles.len() ==> roles[spec_role_index(roles, name)].name
            == name,
        forall|j: int| 0 <= j < spec_role_index(roles, name) ==> roles[j].name != name,
    decreases roles.len(),
{
    if roles.len() == 0 {
    } else if roles[0].name == name {
    } else {
        let rest = roles.drop_first();
        lemma_role_index(rest, name);
        let k = spec_role_index(rest, name);
        assert forall|j: int| 0 <= j < 1 + k implies roles[j].name != name by {
            if j > 0 {
                assert(rest[j - 1] == roles[j]);
            }
        }
        if k < rest.len() {
            assert(rest[k] == roles[k + 1]);
        }
    }
}

/// An app manifest's roles together with the DNA bundles of the app.
#[derive(Debug, PartialEq, Eq)]
pub struct AppBundle {
    roles: Vec<AppRoleManifest>,
    resources: Vec<(String, Vec<u8>)>,
}

impl View for AppBundle {
    type V = AppBundleView;

    closed spec fn view(&self) -> AppBundleView {
        AppBundleView { roles: self.roles.deep_view(), resources: self.resources.deep_view() }
    }
}

impl DeepView for AppBundle {
    type V = AppBundleView;

    open spec fn deep_view(&self) -> AppBundleView {
        self@
    }
}

impl AppBundle {
    #[verifier::type_invariant]
    spec fn well_formed(self) -> bool {
        spec_roles_distinct(self.roles.deep_view())
    }

    /// The bundle of the given roles and resources; `None` where two roles
    /// have the same name.
    pub fn new(roles: Vec<AppRoleManifest>, resources: Vec<(String, Vec<u8>)>) -> (bundle: Option<
        AppBundle,
    >)
        ensures
            bundle is Some <==> spec_roles_distinct(roles.deep_view()),
            bundle matches Some(b) ==> b@.roles == roles.deep_view() && b@.resources
                == resources.deep_view(),
    {
        let ghost view = roles.deep_view();
        let mut i: usize = 0;
        while i < roles.len()
            invariant
                i <= roles.len(),
                view == roles.deep_view(),
                forall|a: int, b: int| 0 <= a < i && 0 <= b < a ==> view[a].name != view[b].name,
            decreases roles.len() - i,
        {
            let mut j: usize = 0;
            while j < i
                invariant
                    j <= i < roles.len(),
                    view == roles.deep_view(),
                    forall|b: int| 0 <= b < j ==> view[i as int].name != view[b].name,
                decreases i - j,
            {
                assert(view[i as int].name == roles@[i as int].name@);
                assert(view[j as int].name == roles@[j as int].name@);
                if strings_equal(&roles[i].name, &roles[j].name) {
                    return None;
                }
                j = j + 1;
            }
            i = i + 1;
        }
        assert forall|a: int, b: int|
            0 <= a < view.len() && 0 <= b < view.len() && a != b implies view[a].name
            != view[b].name by {
            if b < a {
            } else {
                assert(view[b].name != view[a].name);
            }
        }
        Some(AppBundle { roles, resources })
    }

    /// The roles that the manifest declares, in its order.
    pub fn app_roles(&self) -> (roles: &Vec<AppRoleManifest>)
        ensures
            roles.deep_view() == self@.roles,
            spec_roles_distinct(self@.roles),
    {
        proof {
            use_type_invariant(self);
        }
        &self.roles
    }

    /// The resources of the bundle, each under its path.
    pub fn bundled_resources(&self) -> (resources: &Vec<(String, Vec<u8>)>)
        ensures
            resources.deep_view() == self@.resources,
    {
        &self.resources
    }
}

} // verus!
