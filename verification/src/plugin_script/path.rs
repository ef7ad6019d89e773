//! Paths as sequences of components.

use vstd::prelude::*;
use vstd::string::*;

verus! {

/// A name in a path: the bytes by which names are told apart, and a readable
/// form of them.
pub struct PathName {
    pub bytes: Vec<u8>,
    pub text: String,
}

/// One component of a path.
pub enum PathComponent {
    /// What may stand before the root, such as a drive.
    Prefix(PathName),
    RootDir,
    CurDir,
    ParentDir,
    Normal(PathName),
}

/// A path, component by component. The names of its normal components are such
/// as [`is_well_formed`] says; nothing but what is said of the readable form of
/// a path depends on that.
pub struct LexicalPath {
    pub components: Vec<PathComponent>,
}

/// What a [`PathName`] holds.
pub struct NameView {
    pub bytes: Seq<u8>,
    pub text: Seq<char>,
}

/// What a [`PathComponent`] holds.
pub enum ComponentView {
    Prefix(NameView),
    RootDir,
    CurDir,
    ParentDir,
    Normal(NameView),
}

/// What a [`LexicalPath`] holds.
pub type PathView = Seq<ComponentView>;

impl DeepView for PathName {
    type V = NameView;

    open spec fn deep_view(&self) -> NameView {
        NameView { bytes: self.bytes@, text: self.text@ }
    }
}

impl DeepView for PathComponent {
    type V = ComponentView;

    open spec fn deep_view(&self) -> ComponentView {
        match self {
            PathComponent::Prefix(name) => ComponentView::Prefix(name.deep_view()),
            PathComponent::RootDir => ComponentView::RootDir,
            PathComponent::CurDir => ComponentView::CurDir,
            PathComponent::ParentDir => ComponentView::ParentDir,
            PathComponent::Normal(name) => ComponentView::Normal(name.deep_view()),
        }
    }
}

impl DeepView for LexicalPath {
    type V = PathView;

    open spec fn deep_view(&self) -> PathView {
        self.components.deep_view()
    }
}

/// The text can be a name in a path: it is not empty, holds no slash, and is
/// neither `.` nor `..`.
pub open spec fn is_name(text: Seq<char>) -> bool {
    text.len() > 0 && !text.contains('/') && text != "."@ && text != ".."@
}

/// Each normal component of `path` has a name.
pub open spec fn is_well_formed(path: PathView) -> bool {
    forall|i: int|
        0 <= i < path.len() ==> (#[trigger] path[i] matches ComponentView::Normal(name) ==> is_name(
            name.text,
        ))
}

/// Two components are the same; names are compared by their bytes.
pub open spec fn same_component(a: ComponentView, b: ComponentView) -> bool {
    match (a, b) {
        (ComponentView::Prefix(x), ComponentView::Prefix(y)) => x.bytes == y.bytes,
        (ComponentView::RootDir, ComponentView::RootDir) => true,
        (ComponentView::CurDir, ComponentView::CurDir) => true,
        (ComponentView::ParentDir, ComponentView::ParentDir) => true,
        (ComponentView::Normal(x), ComponentView::Normal(y)) => x.bytes == y.bytes,
        _ => false,
    }
}

/// `path` lies at or below `base`.
pub open spec fn is_within(path: PathView, base: PathView) -> bool {
    &&& base.len() <= path.len()
    &&& forall|i: int| 0 <= i < base.len() ==> same_component(#[trigger] path[i], base[i])
}

/// The readable names of the normal components of `path`.
pub open spec fn normal_texts(path: PathView) -> Seq<Seq<char>>
    decreases path.len(),
{
    if path.len() == 0 {
        Seq::empty()
    } else {
        match path.last() {
            ComponentView::Normal(name) => normal_texts(path.drop_last()).push(name.text),
            _ => normal_texts(path.drop_last()),
        }
    }
}

/// The texts `parts` with a slash between each two.
pub open spec fn slash_joined(parts: Seq<Seq<char>>) -> Seq<char>
    decreases parts.len(),
{
    if parts.len() == 0 {
        Seq::empty()
    } else if parts.len() == 1 {
        parts[0]
    } else {
        slash_joined(parts.drop_last()) + "/"@ + parts.last()
    }
}

fn same_bytes(a: &Vec<u8>, b: &Vec<u8>) -> (same: bool)
    ensures
        same == (a@ == b@),
{
    if a.len() != b.len() {
        return false;
    }
    let mut i: usize = 0;
    while i < a.len()
        invariant
            i <= a@.len(),
            a@.len() == b@.len(),
            forall|k: int| 0 <= k < i ==> a@[k] == b@[k],
        decreases a@.len() - i,
    {
        if a[i] != b[i] {
            return false;
        }
        i += 1;
    }
    assert(a@ =~= b@);
    true
}

impl Clone for PathName {
    fn clone(&self) -> (name: Self)
        ensures
            name.deep_view() == self.deep_view(),
    {
        let bytes = self.bytes.clone();
        assert(bytes@ =~= self.bytes@);
        PathName { bytes, text: self.text.clone() }
    }
}

impl Clone for PathComponent {
    fn clone(&self) -> (component: Self)
        ensures
            component.deep_view() == self.deep_view(),
    {
        match self {
            PathComponent::Prefix(name) => PathComponent::Prefix(name.clone()),
            PathComponent::RootDir => PathComponent::RootDir,
            PathComponent::CurDir => PathComponent::CurDir,
            PathComponent::ParentDir => PathComponent::ParentDir,
            PathComponent::Normal(name) => PathComponent::Normal(name.clone()),
        }
    }
}

impl Clone for LexicalPath {
    fn clone(&self) -> (path: Self)
        ensures
            path.deep_view() == self.deep_view(),
    {
        let path = self.part(0, self.components.len());
        assert(path.deep_view() =~= self.deep_view());
        path
    }
}

impl PathComponent {
    /// Whether two components are the same.
    pub fn same(&self, other: &PathComponent) -> (same: bool)
        ensures
            same == same_component(self.deep_view(), other.deep_view()),
    {
        match (self, other) {
            (PathComponent::Prefix(x), PathComponent::Prefix(y)) => same_bytes(&x.bytes, &y.bytes),
            (PathComponent::RootDir, PathComponent::RootDir) => true,
            (PathComponent::CurDir, PathComponent::CurDir) => true,
            (PathComponent::ParentDir, PathComponent::ParentDir) => true,
            (PathComponent::Normal(x), PathComponent::Normal(y)) => same_bytes(&x.bytes, &y.bytes),
            _ => false,
        }
    }
}

impl LexicalPath {
    /// The path made of the components from `from` up to `to`.
    fn part(&self, from: usize, to: usize) -> (path: LexicalPath)
        requires
            from <= to <= self.components@.len(),
        ensures
            path.deep_view() == self.deep_view().subrange(from as int, to as int),
    {
        let mut components: Vec<PathComponent> = Vec::new();
        let mut i: usize = from;
        while i < to
            invariant
                from <= i <= to <= self.components@.len(),
                components.deep_view() == self.deep_view().subrange(from as int, i as int),
            decreases to - i,
        {
            let ghost before = components.deep_view();
            let component = self.components[i].clone();
            components.push(component);
            assert(components.deep_view() =~= before.push(self.deep_view()[i as int]));
            i += 1;
            assert(components.deep_view() =~= self.deep_view().subrange(from as int, i as int));
        }
        LexicalPath { components }
    }

    /// Whether the path lies at or below `base`.
    pub fn is_within(&self, base: &LexicalPath) -> (within: bool)
        ensures
            within == is_within(self.deep_view(), base.deep_view()),
    {
        if base.components.len() > self.components.len() {
            return false;
        }
        let mut i: usize = 0;
        while i < base.components.len()
            invariant
                i <= base.components@.len() <= self.components@.len(),
                forall|k: int|
                    0 <= k < i ==> same_component(
                        #[trigger] self.deep_view()[k],
                        base.deep_view()[k],
                    ),
            decreases base.components@.len() - i,
        {
            if !self.components[i].same(&base.components[i]) {
                assert(!same_component(self.deep_view()[i as int], base.deep_view()[i as int]));
                return false;
            }
            i += 1;
        }
        true
    }

    /// The part of the path below `base`, where the path lies at or below it.
    pub fn strip_prefix(&self, base: &LexicalPath) -> (rest: Option<LexicalPath>)
        ensures
            rest matches Some(rest) ==> is_well_formed(self.deep_view()) ==> is_well_formed(
                rest.deep_view(),
            ),
            rest.deep_view() == if is_within(self.deep_view(), base.deep_view()) {
                Some(self.deep_view().skip(base.deep_view().len() as int))
            } else {
                None
            },
    {
        if self.is_within(base) {
            let rest = self.part(base.components.len(), self.components.len());
            assert(rest.deep_view() =~= self.deep_view().skip(base.deep_view().len() as int));
            Some(rest)
        } else {
            None
        }
    }

    /// The path without its last component; `None` where that is no name to
    /// leave out.
    pub fn parent(&self) -> (parent: Option<LexicalPath>)
        ensures
            parent.deep_view() == parent_path(self.deep_view()),
            parent matches Some(parent) ==> is_well_formed(self.deep_view()) ==> is_well_formed(
                parent.deep_view(),
            ),
    {
        let len = self.components.len();
        if len == 0 {
            return None;
        }
        assert(self.deep_view().last() == self.components@[len - 1].deep_view());
        match &self.components[len - 1] {
            PathComponent::Prefix(_) | PathComponent::RootDir => None,
            _ => {
                let parent = self.part(0, len - 1);
                assert(parent.deep_view() =~= self.deep_view().drop_last());
                Some(parent)
            },
        }
    }
}

/// The path that `path` lies in. A root and the empty path lie in none.
pub open spec fn parent_path(path: PathView) -> Option<PathView> {
    if path.len() == 0 || path.last() is RootDir || path.last() is Prefix {
        None
    } else {
        Some(path.drop_last())
    }
}

/// The readable form of a relative path, the same on every platform: its normal
/// components with slashes between them.
pub fn normalized_relative_path(path: &LexicalPath) -> (text: String)
    ensures
        text@ == slash_joined(normal_texts(path.deep_view())),
{
    let mut text = String::new();
    let mut first: bool = true;
    let mut i: usize = 0;
    let ghost view = path.deep_view();
    assert(view.take(0) =~= Seq::empty());
    while i < path.components.len()
        invariant
            i <= path.components@.len(),
            view == path.deep_view(),
            text@ == slash_joined(normal_texts(view.take(i as int))),
            first == (normal_texts(view.take(i as int)).len() == 0),
        decreases path.components@.len() - i,
    {
        let ghost next = view.take(i + 1);
        let ghost done = normal_texts(view.take(i as int));
        assert(next.drop_last() =~= view.take(i as int));
        assert(next.last() == path.components@[i as int].deep_view());
        if let PathComponent::Normal(name) = &path.components[i] {
            if !first {
                text.append("/");
            }
            text.append(name.text.as_str());
            first = false;
            proof {
                let more = normal_texts(next);
                assert(more == done.push(name.text@));
                assert(more.drop_last() =~= done);
                if done.len() == 0 {
                    assert(text@ =~= name.text@);
                } else {
                    assert(text@ =~= slash_joined(done) + "/"@ + name.text@);
                }
            }
        }
        i += 1;
    }
    assert(view.take(i as int) =~= view);
    text
}

} // verus!
