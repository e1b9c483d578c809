//! Unix paths handled as character strings: joining, splitting into
//! components, the final name, the parent, and relative paths between
//! two locations.  Two paths with the same components name the same
//! location, so results are built from components with single `/`
//! separators.

use crate::text::{chars_eq, extend_chars};
use vstd::prelude::*;

verus! {

/// `base` joined with `p`: an absolute `p` replaces `base`; otherwise a
/// `/` is put between them when `base` is non-empty and does not already
/// end in one.
pub open spec fn join_spec(base: Seq<char>, p: Seq<char>) -> Seq<char> {
    if p.len() > 0 && p[0] == '/' {
        p
    } else if base.len() == 0 {
        p
    } else if base.last() == '/' {
        base + p
    } else {
        base + seq!['/'] + p
    }
}

/// Joins `p` onto `base`.
pub fn join(base: &Vec<char>, p: &Vec<char>) -> (r: Vec<char>)
    ensures
        r@ == join_spec(base@, p@),
{
    if p.len() > 0 && p[0] == '/' {
        return p.clone();
    }
    let mut r: Vec<char> = Vec::new();
    extend_chars(&mut r, base);
    if base.len() > 0 && base[base.len() - 1] != '/' {
        r.push('/');
    }
    extend_chars(&mut r, p);
    r
}

/// One component of a path.
pub enum Component {
    /// The leading `/`.
    RootDir,
    /// A leading `.`.
    CurDir,
    /// `..`.
    ParentDir,
    /// Any other name.
    Normal(Vec<char>),
}

/// The mathematical form of a component.
pub enum SpecComponent {
    RootDir,
    CurDir,
    ParentDir,
    Normal(Seq<char>),
}

impl Component {
    pub open spec fn view(&self) -> SpecComponent {
        match self {
            Component::RootDir => SpecComponent::RootDir,
            Component::CurDir => SpecComponent::CurDir,
            Component::ParentDir => SpecComponent::ParentDir,
            Component::Normal(n) => SpecComponent::Normal(n@),
        }
    }
}

/// The views of a list of components.
pub open spec fn component_views(cs: Seq<Component>) -> Seq<SpecComponent> {
    cs.map_values(|c: Component| c.view())
}

/// Length of the front of `p` before the first `/`.
pub open spec fn seg_len(p: Seq<char>) -> nat
    decreases p.len(),
{
    if p.len() == 0 || p[0] == '/' {
        0
    } else {
        1 + seg_len(p.drop_first())
    }
}

pub proof fn lemma_seg_len(p: Seq<char>)
    ensures
        seg_len(p) <= p.len(),
        seg_len(p) < p.len() ==> p[seg_len(p) as int] == '/',
        forall|i: int| 0 <= i < seg_len(p) ==> p[i] != '/',
    decreases p.len(),
{
    if p.len() > 0 && p[0] != '/' {
        lemma_seg_len(p.drop_first());
        assert forall|i: int| 0 <= i < seg_len(p) implies p[i] != '/' by {
            if i > 0 {
                assert(p[i] == p.drop_first()[i - 1]);
            }
        }
    }
}

/// The component a non-empty name that is not `.` stands for.
pub open spec fn name_component(seg: Seq<char>) -> SpecComponent {
    if seg == seq!['.', '.'] {
        SpecComponent::ParentDir
    } else {
        SpecComponent::Normal(seg)
    }
}

/// The components named between the separators of `p`: empty names and
/// `.` are skipped.
pub open spec fn name_components(p: Seq<char>) -> Seq<SpecComponent>
    decreases p.len(),
{
    if p.len() == 0 {
        Seq::empty()
    } else {
        let n = seg_len(p);
        proof {
            lemma_seg_len(p);
        }
        let seg = p.take(n as int);
        let here = if seg.len() == 0 || seg == seq!['.'] {
            Seq::empty()
        } else {
            seq![name_component(seg)]
        };
        let rest = if n < p.len() {
            p.skip(n + 1int)
        } else {
            Seq::empty()
        };
        here + name_components(rest)
    }
}

/// `p` starts with a `.` that stands alone: `.` itself or `./...`.
pub open spec fn starts_with_cur_dir(p: Seq<char>) -> bool {
    p.len() >= 1 && p[0] == '.' && (p.len() == 1 || p[1] == '/')
}

/// The components of `p`, as `Path::components` yields them on Unix.
pub open spec fn components(p: Seq<char>) -> Seq<SpecComponent> {
    let head = if p.len() > 0 && p[0] == '/' {
        seq![SpecComponent::RootDir]
    } else if starts_with_cur_dir(p) {
        seq![SpecComponent::CurDir]
    } else {
        Seq::empty()
    };
    head + name_components(p)
}

fn name_component_exec(seg: Vec<char>) -> (c: Component)
    requires
        seg@.len() > 0,
    ensures
        c.view() == name_component(seg@),
{
    if seg.len() == 2 && seg[0] == '.' && seg[1] == '.' {
        assert(seg@ =~= seq!['.', '.']);
        Component::ParentDir
    } else {
        assert(seg@ != seq!['.', '.']) by {
            if seg@ == seq!['.', '.'] {
                assert(seg@.len() == 2 && seg@[0] == '.' && seg@[1] == '.');
            }
        }
        Component::Normal(seg)
    }
}

/// Splits `p` into its components.
pub fn path_components(p: &Vec<char>) -> (r: Vec<Component>)
    ensures
        component_views(r@) == components(p@),
{
    let mut r: Vec<Component> = Vec::new();
    if p.len() > 0 && p[0] == '/' {
        r.push(Component::RootDir);
    } else if p.len() >= 1 && p[0] == '.' && (p.len() == 1 || p[1] == '/') {
        r.push(Component::CurDir);
    }
    let ghost head = component_views(r@);
    assert(p@.skip(0) =~= p@);
    let mut i: usize = 0;
    while i < p.len()
        invariant
            i <= p.len(),
            components(p@) == component_views(r@) + name_components(p@.skip(i as int)),
        decreases p.len() - i,
    {
        let ghost rest = p@.skip(i as int);
        proof {
            lemma_seg_len(rest);
        }
        let start = i;
        let mut seg: Vec<char> = Vec::new();
        while i < p.len() && p[i] != '/'
            invariant
                start <= i <= p.len(),
                rest == p@.skip(start as int),
                seg@ == p@.subrange(start as int, i as int),
                seg_len(rest) == (i - start) + seg_len(p@.skip(i as int)),
            decreases p.len() - i,
        {
            assert(p@.skip(i as int).drop_first() =~= p@.skip(i + 1));
            seg.push(p[i]);
            i += 1;
            assert(seg@ =~= p@.subrange(start as int, i as int));
        }
        assert(rest.take(seg_len(rest) as int) =~= seg@);
        let ghost before = component_views(r@);
        let ghost next_rest = if i < p.len() {
            p@.skip(i + 1)
        } else {
            Seq::<char>::empty()
        };
        if i < p.len() {
            assert(rest.skip(seg_len(rest) + 1int) =~= p@.skip(i + 1));
        }
        if seg.len() == 0 || (seg.len() == 1 && seg[0] == '.') {
            assert(seg@.len() == 0 || seg@ =~= seq!['.']);
            assert(name_components(rest) == name_components(next_rest));
        } else {
            assert(seg@ != seq!['.']) by {
                if seg@ == seq!['.'] {
                    assert(seg@.len() == 1 && seg@[0] == '.');
                }
            }
            let c = name_component_exec(seg);
            r.push(c);
            assert(component_views(r@) =~= before + seq![c.view()]);
            assert(name_components(rest) == seq![c.view()] + name_components(next_rest));
        }
        if i < p.len() {
            i += 1;
        }
        assert(next_rest =~= p@.skip(i as int));
        assert(components(p@) == component_views(r@) + name_components(p@.skip(i as int))) by {
            assert(component_views(r@) + name_components(next_rest) =~= before + name_components(
                rest,
            ));
        }
    }
    assert(p@.skip(p.len() as int) =~= Seq::<char>::empty());
    assert(component_views(r@) + Seq::<SpecComponent>::empty() =~= component_views(r@));
    r
}

/// The final name of `p`: its last component, when that is a plain name.
pub open spec fn file_name_spec(p: Seq<char>) -> Option<Seq<char>> {
    let cs = components(p);
    if cs.len() > 0 {
        match cs.last() {
            SpecComponent::Normal(n) => Some(n),
            _ => None,
        }
    } else {
        None
    }
}

/// The final name of `p`, as `Path::file_name` gives it.
pub fn file_name(p: &Vec<char>) -> (r: Option<Vec<char>>)
    ensures
        r matches Some(n) ==> file_name_spec(p@) == Some(n@),
        r is None ==> file_name_spec(p@) is None,
{
    let mut cs = path_components(p);
    if cs.len() == 0 {
        return None;
    }
    assert(component_views(cs@).last() == cs@[cs.len() - 1].view());
    match cs.pop() {
        Some(Component::Normal(n)) => Some(n),
        _ => None,
    }
}

/// The text a component stands for.
pub open spec fn component_text(c: SpecComponent) -> Seq<char> {
    match c {
        SpecComponent::RootDir => seq!['/'],
        SpecComponent::CurDir => seq!['.'],
        SpecComponent::ParentDir => seq!['.', '.'],
        SpecComponent::Normal(n) => n,
    }
}

/// The path built by pushing `cs`, in order, onto `base`.
pub open spec fn push_all(base: Seq<char>, cs: Seq<SpecComponent>) -> Seq<char>
    decreases cs.len(),
{
    if cs.len() == 0 {
        base
    } else {
        push_all(join_spec(base, component_text(cs[0])), cs.drop_first())
    }
}

fn component_text_exec(c: &Component) -> (t: Vec<char>)
    ensures
        t@ == component_text(c.view()),
{
    match c {
        Component::RootDir => {
            let mut t: Vec<char> = Vec::new();
            t.push('/');
            assert(t@ =~= seq!['/']);
            t
        },
        Component::CurDir => {
            let mut t: Vec<char> = Vec::new();
            t.push('.');
            assert(t@ =~= seq!['.']);
            t
        },
        Component::ParentDir => {
            let mut t: Vec<char> = Vec::new();
            t.push('.');
            t.push('.');
            assert(t@ =~= seq!['.', '.']);
            t
        },
        Component::Normal(n) => n.clone(),
    }
}

fn components_eq(a: &Component, b: &Component) -> (r: bool)
    ensures
        r == (a.view() == b.view()),
{
    match (a, b) {
        (Component::RootDir, Component::RootDir) => true,
        (Component::CurDir, Component::CurDir) => true,
        (Component::ParentDir, Component::ParentDir) => true,
        (Component::Normal(x), Component::Normal(y)) => chars_eq(x, y),
        _ => false,
    }
}

/// Number of leading positions at which `a` and `b` agree.
pub open spec fn common_prefix_len(a: Seq<SpecComponent>, b: Seq<SpecComponent>) -> nat
    decreases a.len(),
{
    if a.len() == 0 || b.len() == 0 || a[0] != b[0] {
        0
    } else {
        1 + common_prefix_len(a.drop_first(), b.drop_first())
    }
}

/// The relative path leading from `base` to `target`: one `..` for each
/// component of `base` past the components the two share at the front,
/// then the rest of `target`.
pub open spec fn relative_path(target: Seq<char>, base: Seq<char>) -> Seq<char> {
    let t = components(target);
    let b = components(base);
    let k = common_prefix_len(t, b);
    push_all(
        push_all(Seq::empty(), Seq::new((b.len() - k) as nat, |i: int| SpecComponent::ParentDir)),
        t.skip(k as int),
    )
}

proof fn lemma_common_prefix_len(a: Seq<SpecComponent>, b: Seq<SpecComponent>)
    ensures
        common_prefix_len(a, b) <= a.len(),
        common_prefix_len(a, b) <= b.len(),
    decreases a.len(),
{
    if !(a.len() == 0 || b.len() == 0 || a[0] != b[0]) {
        lemma_common_prefix_len(a.drop_first(), b.drop_first());
    }
}

proof fn lemma_push_all_append(base: Seq<char>, a: Seq<SpecComponent>, b: Seq<SpecComponent>)
    ensures
        push_all(base, a + b) == push_all(push_all(base, a), b),
    decreases a.len(),
{
    if a.len() == 0 {
        assert(a + b =~= b);
    } else {
        assert((a + b).drop_first() =~= a.drop_first() + b);
        assert((a + b)[0] == a[0]);
        lemma_push_all_append(join_spec(base, component_text(a[0])), a.drop_first(), b);
    }
}

/// `target` and `base` share an ancestor: their component lists agree
/// at the front on at least one component (both start at the root, or
/// both with the same name).
pub open spec fn share_ancestor(target: Seq<char>, base: Seq<char>) -> bool {
    common_prefix_len(components(target), components(base)) > 0
}

/// Computes the relative path from `base` to `target`; none when the two
/// share no ancestor.
pub fn diff_paths(target: &Vec<char>, base: &Vec<char>) -> (r: Option<Vec<char>>)
    ensures
        r is None <==> !share_ancestor(target@, base@),
        r matches Some(p) ==> p@ == relative_path(target@, base@),
{
    let tc = path_components(target);
    let bc = path_components(base);
    let ghost t = component_views(tc@);
    let ghost b = component_views(bc@);
    let mut k: usize = 0;
    assert(t.skip(0) =~= t);
    assert(b.skip(0) =~= b);
    while k < tc.len() && k < bc.len() && components_eq(&tc[k], &bc[k])
        invariant
            k <= tc.len(),
            k <= bc.len(),
            t == component_views(tc@),
            b == component_views(bc@),
            common_prefix_len(t, b) == k + common_prefix_len(t.skip(k as int), b.skip(k as int)),
        decreases tc.len() - k,
    {
        assert(t.skip(k as int).drop_first() =~= t.skip(k + 1));
        assert(b.skip(k as int).drop_first() =~= b.skip(k + 1));
        assert(t.skip(k as int)[0] == tc@[k as int].view());
        assert(b.skip(k as int)[0] == bc@[k as int].view());
        k += 1;
    }
    assert(common_prefix_len(t.skip(k as int), b.skip(k as int)) == 0) by {
        if k < tc.len() && k < bc.len() {
            assert(t.skip(k as int)[0] == tc@[k as int].view());
            assert(b.skip(k as int)[0] == bc@[k as int].view());
        }
    }
    if k == 0 {
        return None;
    }
    let ghost ups = Seq::new((b.len() - k) as nat, |i: int| SpecComponent::ParentDir);
    let mut r: Vec<char> = Vec::new();
    let mut j: usize = k;
    assert(push_all(Seq::empty(), ups.take(0)) =~= r@) by {
        assert(ups.take(0) =~= Seq::<SpecComponent>::empty());
    }
    while j < bc.len()
        invariant
            k <= j <= bc.len(),
            b == component_views(bc@),
            ups == Seq::new((b.len() - k) as nat, |i: int| SpecComponent::ParentDir),
            r@ == push_all(Seq::empty(), ups.take(j - k)),
        decreases bc.len() - j,
    {
        let ghost before = r@;
        let ghost one = seq![SpecComponent::ParentDir];
        proof {
            lemma_push_all_append(Seq::empty(), ups.take(j - k), one);
            assert(ups.take(j - k) + one =~= ups.take(j + 1 - k));
            assert(one.drop_first() =~= Seq::<SpecComponent>::empty());
        }
        let mut dots: Vec<char> = Vec::new();
        dots.push('.');
        dots.push('.');
        assert(dots@ =~= component_text(SpecComponent::ParentDir));
        r = join(&r, &dots);
        proof {
            assert(one[0] == SpecComponent::ParentDir);
            let y = join_spec(before, component_text(one[0]));
            assert(push_all(y, one.drop_first()) == y);
            assert(push_all(before, one) == y);
        }
        j += 1;
    }
    assert(ups.take(b.len() - k) =~= ups);
    let ghost mid = r@;
    let mut j2: usize = k;
    assert(t.skip(k as int).take(0) =~= Seq::<SpecComponent>::empty());
    while j2 < tc.len()
        invariant
            k <= j2 <= tc.len(),
            t == component_views(tc@),
            r@ == push_all(mid, t.skip(k as int).take(j2 - k)),
        decreases tc.len() - j2,
    {
        let ghost one = seq![tc@[j2 as int].view()];
        proof {
            lemma_push_all_append(mid, t.skip(k as int).take(j2 - k), one);
            assert(t.skip(k as int).take(j2 - k) + one =~= t.skip(k as int).take(j2 + 1 - k));
            assert(one.drop_first() =~= Seq::<SpecComponent>::empty());
        }
        let ghost before = r@;
        let txt = component_text_exec(&tc[j2]);
        r = join(&r, &txt);
        proof {
            let y = join_spec(before, component_text(one[0]));
            assert(push_all(y, one.drop_first()) == y);
            assert(push_all(before, one) == y);
            assert(t.skip(k as int).take(j2 + 1 - k) == t.skip(k as int).take(j2 - k) + one);
        }
        j2 += 1;
    }
    assert(t.skip(k as int).take(t.len() - k) =~= t.skip(k as int));
    Some(r)
}

/// The path of the directory holding `p`: `p` without its last
/// component; none when `p` is empty or is just the root.
pub open spec fn parent_spec(p: Seq<char>) -> Option<Seq<char>> {
    let cs = components(p);
    if cs.len() == 0 || cs.last() == SpecComponent::RootDir {
        None
    } else {
        Some(push_all(Seq::empty(), cs.drop_last()))
    }
}

/// Builds a path from components.
pub fn render_components(cs: &Vec<Component>, n: usize) -> (r: Vec<char>)
    requires
        n <= cs.len(),
    ensures
        r@ == push_all(Seq::empty(), component_views(cs@).take(n as int)),
{
    let ghost v = component_views(cs@);
    let mut r: Vec<char> = Vec::new();
    let mut j: usize = 0;
    assert(v.take(0) =~= Seq::<SpecComponent>::empty());
    while j < n
        invariant
            j <= n <= cs.len(),
            v == component_views(cs@),
            r@ == push_all(Seq::empty(), v.take(j as int)),
        decreases n - j,
    {
        let ghost before = r@;
        let ghost one = seq![cs@[j as int].view()];
        proof {
            lemma_push_all_append(Seq::empty(), v.take(j as int), one);
            assert(v.take(j as int) + one =~= v.take(j + 1));
            assert(one.drop_first() =~= Seq::<SpecComponent>::empty());
        }
        let txt = component_text_exec(&cs[j]);
        r = join(&r, &txt);
        proof {
            let y = join_spec(before, component_text(one[0]));
            assert(push_all(y, one.drop_first()) == y);
        }
        j += 1;
    }
    r
}

/// The directory holding `p`, as `Path::parent` gives it.
pub fn parent(p: &Vec<char>) -> (r: Option<Vec<char>>)
    ensures
        r matches Some(q) ==> parent_spec(p@) == Some(q@),
        r is None ==> parent_spec(p@) is None,
{
    let cs = path_components(p);
    if cs.len() == 0 {
        return None;
    }
    assert(component_views(cs@).last() == cs@[cs.len() - 1].view());
    match &cs[cs.len() - 1] {
        Component::RootDir => None,
        _ => {
            let r = render_components(&cs, cs.len() - 1);
            assert(component_views(cs@).take(cs.len() - 1) =~= component_views(cs@).drop_last());
            Some(r)
        },
    }
}

/// Lexical resolution of the components `rel` against `base`: `..` drops
/// the last component (when there is one), `.` changes nothing, the root
/// starts over, a name is appended.
pub open spec fn resolve(base: Seq<SpecComponent>, rel: Seq<SpecComponent>) -> Seq<SpecComponent>
    decreases rel.len(),
{
    if rel.len() == 0 {
        base
    } else {
        let next = match rel[0] {
            SpecComponent::RootDir => seq![SpecComponent::RootDir],
            SpecComponent::CurDir => base,
            SpecComponent::ParentDir => if base.len() > 0 {
                base.drop_last()
            } else {
                base
            },
            SpecComponent::Normal(n) => base.push(SpecComponent::Normal(n)),
        };
        resolve(next, rel.drop_first())
    }
}

/// No component is `.` or `..`.
pub open spec fn plain(cs: Seq<SpecComponent>) -> bool {
    forall|i: int| 0 <= i < cs.len() ==> !(cs[i] is CurDir) && !(cs[i] is ParentDir)
}

/// The components of the relative path from `b` to `t`: one `..` for each
/// component of `b` past the shared front, then the rest of `t`.
pub open spec fn relative_components(t: Seq<SpecComponent>, b: Seq<SpecComponent>) -> Seq<SpecComponent> {
    let k = common_prefix_len(t, b);
    Seq::new((b.len() - k) as nat, |i: int| SpecComponent::ParentDir) + t.skip(k as int)
}

proof fn lemma_common_prefix_agree(a: Seq<SpecComponent>, b: Seq<SpecComponent>)
    ensures
        forall|i: int| 0 <= i < common_prefix_len(a, b) ==> a[i] == b[i],
    decreases a.len(),
{
    if !(a.len() == 0 || b.len() == 0 || a[0] != b[0]) {
        lemma_common_prefix_agree(a.drop_first(), b.drop_first());
        lemma_common_prefix_len(a.drop_first(), b.drop_first());
        assert forall|i: int| 0 <= i < common_prefix_len(a, b) implies a[i] == b[i] by {
            if i > 0 {
                assert(a[i] == a.drop_first()[i - 1]);
                assert(b[i] == b.drop_first()[i - 1]);
            }
        }
    }
}

proof fn lemma_name_components_kinds(p: Seq<char>)
    ensures
        forall|i: int| 0 <= i < name_components(p).len() ==> relative_component(#[trigger] name_components(p)[i]),
    decreases p.len(),
{
    if p.len() > 0 {
        let n = seg_len(p);
        lemma_seg_len(p);
        let rest = if n < p.len() {
            p.skip(n + 1int)
        } else {
            Seq::empty()
        };
        lemma_name_components_kinds(rest);
        let seg = p.take(n as int);
        let here = if seg.len() == 0 || seg == seq!['.'] {
            Seq::<SpecComponent>::empty()
        } else {
            seq![name_component(seg)]
        };
        assert(name_components(p) == here + name_components(rest));
        assert forall|i: int| 0 <= i < name_components(p).len() implies relative_component(
            #[trigger] name_components(p)[i],
        ) by {
            if i < here.len() {
                assert(forall|j: int| 0 <= j < seg.len() ==> seg[j] == p[j]);
                assert(relative_component(name_component(seg)));
            } else {
                assert(name_components(p)[i] == name_components(rest)[i - here.len()]);
            }
        }
    }
}

proof fn lemma_resolve_append(b: Seq<SpecComponent>, x: Seq<SpecComponent>, y: Seq<SpecComponent>)
    ensures
        resolve(b, x + y) == resolve(resolve(b, x), y),
    decreases x.len(),
{
    if x.len() == 0 {
        assert(x + y =~= y);
    } else {
        assert((x + y)[0] == x[0]);
        assert((x + y).drop_first() =~= x.drop_first() + y);
        let next = match x[0] {
            SpecComponent::RootDir => seq![SpecComponent::RootDir],
            SpecComponent::CurDir => b,
            SpecComponent::ParentDir => if b.len() > 0 {
                b.drop_last()
            } else {
                b
            },
            SpecComponent::Normal(n) => b.push(SpecComponent::Normal(n)),
        };
        lemma_resolve_append(next, x.drop_first(), y);
    }
}

proof fn lemma_resolve_ups(b: Seq<SpecComponent>, m: nat)
    requires
        m <= b.len(),
    ensures
        resolve(b, Seq::new(m, |i: int| SpecComponent::ParentDir)) == b.take(b.len() - m),
    decreases m,
{
    let ups = Seq::new(m, |i: int| SpecComponent::ParentDir);
    if m == 0 {
        assert(b.take(b.len() as int) =~= b);
    } else {
        assert(ups.drop_first() =~= Seq::new((m - 1) as nat, |i: int| SpecComponent::ParentDir));
        lemma_resolve_ups(b.drop_last(), (m - 1) as nat);
        assert(b.drop_last().take(b.drop_last().len() - (m - 1)) =~= b.take(b.len() - m));
    }
}

proof fn lemma_resolve_names(b: Seq<SpecComponent>, cs: Seq<SpecComponent>)
    requires
        forall|i: int| 0 <= i < cs.len() ==> #[trigger] cs[i] is Normal,
    ensures
        resolve(b, cs) == b + cs,
    decreases cs.len(),
{
    if cs.len() == 0 {
        assert(b + cs =~= b);
    } else {
        let n = cs[0]->Normal_0;
        assert forall|i: int| 0 <= i < cs.drop_first().len() implies #[trigger] cs.drop_first()[i] is Normal by {
            assert(cs.drop_first()[i] == cs[i + 1]);
        }
        lemma_resolve_names(b.push(SpecComponent::Normal(n)), cs.drop_first());
        assert(b.push(SpecComponent::Normal(n)) + cs.drop_first() =~= b + cs);
    }
}

/// Round trip of relative paths: when `target` and `base` share an
/// ancestor and neither holds a `.` or `..` component, the relative path
/// from `base` to `target` has the components `relative_components`
/// gives, and resolving them against `base` (each `..` dropping the last
/// component) gives back the components of `target`.
pub proof fn lemma_relative_path_round_trip(target: Seq<char>, base: Seq<char>)
    requires
        share_ancestor(target, base),
        plain(components(target)),
        plain(components(base)),
    ensures
        relative_path(target, base) == push_all(
            Seq::empty(),
            relative_components(components(target), components(base)),
        ),
        resolve(components(base), relative_components(components(target), components(base)))
            == components(target),
        components(relative_path(target, base)) == relative_components(components(target), components(base)),
        resolve(components(base), components(relative_path(target, base))) == components(target),
{
    let t = components(target);
    let b = components(base);
    let k = common_prefix_len(t, b);
    lemma_common_prefix_len(t, b);
    lemma_common_prefix_agree(t, b);
    let ups = Seq::new((b.len() - k) as nat, |i: int| SpecComponent::ParentDir);
    lemma_push_all_append(Seq::empty(), ups, t.skip(k as int));
    lemma_resolve_append(b, ups, t.skip(k as int));
    lemma_resolve_ups(b, (b.len() - k) as nat);
    assert(b.take(b.len() - (b.len() - k)) =~= t.take(k as int));
    lemma_name_components_kinds(target);
    let head = if target.len() > 0 && target[0] == '/' {
        seq![SpecComponent::RootDir]
    } else if starts_with_cur_dir(target) {
        seq![SpecComponent::CurDir]
    } else {
        Seq::<SpecComponent>::empty()
    };
    assert(t == head + name_components(target));
    assert forall|i: int| 0 <= i < t.skip(k as int).len() implies #[trigger] t.skip(k as int)[i] is Normal
        && relative_component(t.skip(k as int)[i]) by {
        assert(t.skip(k as int)[i] == t[i + k]);
        if i + k >= head.len() {
            assert(t[i + k] == name_components(target)[i + k - head.len()]);
        }
    }
    lemma_resolve_names(t.take(k as int), t.skip(k as int));
    assert(t.take(k as int) + t.skip(k as int) =~= t);
    let rel = relative_components(t, b);
    assert forall|i: int| 0 <= i < rel.len() implies relative_component(#[trigger] rel[i]) by {
        if i >= ups.len() {
            assert(rel[i] == t.skip(k as int)[i - ups.len()]);
        }
    }
    lemma_components_of_pushed(rel);
}

/// A name that a path component can carry: non-empty, without `/`, and
/// neither `.` nor `..`.
pub open spec fn plain_name(n: Seq<char>) -> bool {
    &&& n.len() > 0
    &&& forall|i: int| 0 <= i < n.len() ==> n[i] != '/'
    &&& n != seq!['.']
    &&& n != seq!['.', '.']
}

/// A component that a relative path is built from: `..` or a plain name.
pub open spec fn relative_component(c: SpecComponent) -> bool {
    match c {
        SpecComponent::ParentDir => true,
        SpecComponent::Normal(n) => plain_name(n),
        _ => false,
    }
}

proof fn lemma_seg_len_before_slash(a: Seq<char>, b: Seq<char>)
    ensures
        seg_len(a + seq!['/'] + b) == seg_len(a),
    decreases a.len(),
{
    if a.len() == 0 {
        assert((a + seq!['/'] + b)[0] == '/');
    } else {
        assert((a + seq!['/'] + b)[0] == a[0]);
        if a[0] != '/' {
            assert((a + seq!['/'] + b).drop_first() =~= a.drop_first() + seq!['/'] + b);
            lemma_seg_len_before_slash(a.drop_first(), b);
        }
    }
}

/// Splitting at a `/` splits the names: the names of `a/b` are those of
/// `a` followed by those of `b`.
proof fn lemma_name_components_split(a: Seq<char>, b: Seq<char>)
    ensures
        name_components(a + seq!['/'] + b) == name_components(a) + name_components(b),
    decreases a.len(),
{
    let p = a + seq!['/'] + b;
    lemma_seg_len_before_slash(a, b);
    lemma_seg_len(a);
    lemma_seg_len(p);
    let n = seg_len(a);
    if a.len() == 0 {
        assert(p.skip(1) =~= b);
        assert(p.take(0) =~= Seq::<char>::empty());
        assert(name_components(a) =~= Seq::<SpecComponent>::empty());
        assert(Seq::<SpecComponent>::empty() + name_components(b) =~= name_components(b));
    } else {
        assert(p.take(n as int) =~= a.take(n as int));
        if n < a.len() {
            assert(p.skip(n + 1int) =~= a.skip(n + 1int) + seq!['/'] + b);
            lemma_name_components_split(a.skip(n + 1int), b);
            let seg = a.take(n as int);
            let here = if seg.len() == 0 || seg == seq!['.'] {
                Seq::<SpecComponent>::empty()
            } else {
                seq![name_component(seg)]
            };
            assert(name_components(a) == here + name_components(a.skip(n + 1int)));
            assert(name_components(p) == here + name_components(p.skip(n + 1int)));
            assert(here + (name_components(a.skip(n + 1int)) + name_components(b)) =~= here + name_components(
                a.skip(n + 1int),
            ) + name_components(b));
        } else {
            assert(n == a.len());
            assert(p.skip(n + 1int) =~= b);
            let seg = a.take(n as int);
            let here = if seg.len() == 0 || seg == seq!['.'] {
                Seq::<SpecComponent>::empty()
            } else {
                seq![name_component(seg)]
            };
            assert(name_components(Seq::<char>::empty()) =~= Seq::<SpecComponent>::empty());
            assert(name_components(a) =~= here + Seq::<SpecComponent>::empty());
            assert(name_components(p) == here + name_components(b));
        }
    }
}

/// A plain name on its own is that one component.
proof fn lemma_name_components_single(n: Seq<char>)
    requires
        n.len() > 0,
        forall|i: int| 0 <= i < n.len() ==> n[i] != '/',
        n != seq!['.'],
    ensures
        name_components(n) == seq![name_component(n)],
{
    lemma_seg_len(n);
    assert(seg_len(n) == n.len()) by {
        if seg_len(n) < n.len() {
            assert(n[seg_len(n) as int] == '/');
        }
    }
    assert(n.take(n.len() as int) =~= n);
    assert(name_components(Seq::<char>::empty()) =~= Seq::<SpecComponent>::empty());
    assert(seq![name_component(n)] + Seq::<SpecComponent>::empty() =~= seq![name_component(n)]);
}

/// Pushing relative components onto a path that does not end in `/` adds
/// exactly those components to its names, and keeps the path in front.
proof fn lemma_push_all_names(base: Seq<char>, cs: Seq<SpecComponent>)
    requires
        base.len() > 0,
        base.last() != '/',
        forall|i: int| 0 <= i < cs.len() ==> relative_component(#[trigger] cs[i]),
    ensures
        name_components(push_all(base, cs)) == name_components(base) + cs,
        push_all(base, cs).len() >= base.len(),
        push_all(base, cs).take(base.len() as int) == base,
    decreases cs.len(),
{
    if cs.len() == 0 {
        assert(name_components(base) + cs =~= name_components(base));
        assert(base.take(base.len() as int) =~= base);
    } else {
        let t = component_text(cs[0]);
        assert(relative_component(cs[0]));
        assert(t.len() > 0 && t[0] != '/' && t.last() != '/');
        let next = join_spec(base, t);
        assert(next == base + seq!['/'] + t);
        assert forall|i: int| 0 <= i < cs.drop_first().len() implies relative_component(
            #[trigger] cs.drop_first()[i],
        ) by {
            assert(cs.drop_first()[i] == cs[i + 1]);
        }
        lemma_push_all_names(next, cs.drop_first());
        lemma_name_components_split(base, t);
        lemma_name_components_single(t);
        assert(name_component(t) == cs[0]);
        assert(name_components(base) + seq![cs[0]] + cs.drop_first() =~= name_components(base) + cs);
        assert(push_all(next, cs.drop_first()).take(base.len() as int) =~= next.take(base.len() as int));
        assert(next.take(base.len() as int) =~= base);
    }
}

/// The components of a path built by pushing relative components onto the
/// empty path are those components.
pub proof fn lemma_components_of_pushed(cs: Seq<SpecComponent>)
    requires
        forall|i: int| 0 <= i < cs.len() ==> relative_component(#[trigger] cs[i]),
    ensures
        components(push_all(Seq::empty(), cs)) == cs,
{
    if cs.len() == 0 {
        assert(components(Seq::<char>::empty()) =~= Seq::<SpecComponent>::empty());
    } else {
        let t = component_text(cs[0]);
        assert(relative_component(cs[0]));
        assert(join_spec(Seq::empty(), t) == t);
        assert forall|i: int| 0 <= i < cs.drop_first().len() implies relative_component(
            #[trigger] cs.drop_first()[i],
        ) by {
            assert(cs.drop_first()[i] == cs[i + 1]);
        }
        let x = push_all(t, cs.drop_first());
        lemma_push_all_names(t, cs.drop_first());
        lemma_name_components_single(t);
        assert(name_component(t) == cs[0]);
        assert(x.take(t.len() as int)[0] == x[0]);
        assert(x[0] == t[0]);
        assert(!starts_with_cur_dir(x)) by {
            assert(x.take(t.len() as int) == t);
            if t.len() >= 2 {
                assert(x[1] == t[1]);
                assert(t[1] != '/');
            } else {
                assert(t =~= seq![t[0]]);
                assert(t[0] != '.');
            }
        }
        assert(seq![cs[0]] + cs.drop_first() =~= cs);
        assert(Seq::<SpecComponent>::empty() + name_components(x) =~= name_components(x));
    }
}

/// The component a path starts with, where it starts with the root or a
/// lone `.`.
pub open spec fn head_component(p: Seq<char>) -> Seq<SpecComponent> {
    if p.len() > 0 && p[0] == '/' {
        seq![SpecComponent::RootDir]
    } else if starts_with_cur_dir(p) {
        seq![SpecComponent::CurDir]
    } else {
        Seq::empty()
    }
}

proof fn lemma_head_extended(base: Seq<char>, s: Seq<char>)
    requires
        base.len() > 0,
        s.len() == 0 || s[0] == '/' || base.len() >= 2,
    ensures
        head_component(base + s) == head_component(base),
{
    let x = base + s;
    assert(x[0] == base[0]);
    if base.len() >= 2 {
        assert(x[1] == base[1]);
    } else if s.len() > 0 {
        assert(x[1] == s[0]);
    } else {
        assert(x =~= base);
    }
}

/// Joining a relative path onto `base` adds its names to the components
/// of `base`.
proof fn lemma_components_of_join(base: Seq<char>, rel: Seq<char>)
    requires
        base.len() > 0,
        rel.len() == 0 || rel[0] != '/',
    ensures
        components(join_spec(base, rel)) == components(base) + name_components(rel),
{
    let e = Seq::<char>::empty();
    assert(name_components(e) =~= Seq::<SpecComponent>::empty());
    if base.last() == '/' {
        let b1 = base.drop_last();
        assert(join_spec(base, rel) == base + rel);
        assert(base + rel =~= b1 + seq!['/'] + rel);
        assert(base =~= b1 + seq!['/'] + e);
        lemma_name_components_split(b1, rel);
        lemma_name_components_split(b1, e);
        assert(name_components(b1) + name_components(e) =~= name_components(b1));
        if base.len() >= 2 || rel.len() == 0 {
            lemma_head_extended(base, rel);
        } else {
            assert(base =~= seq!['/']);
            assert((base + rel)[0] == '/');
        }
    } else {
        assert(join_spec(base, rel) == base + seq!['/'] + rel);
        assert(base + seq!['/'] + rel =~= base + (seq!['/'] + rel));
        lemma_name_components_split(base, rel);
        lemma_head_extended(base, seq!['/'] + rel);
    }
    assert(components(join_spec(base, rel)) == head_component(join_spec(base, rel)) + name_components(
        join_spec(base, rel),
    ));
    assert(components(base) == head_component(base) + name_components(base));
    assert(head_component(base) + (name_components(base) + name_components(rel)) =~= head_component(base)
        + name_components(base) + name_components(rel));
}

/// Resolving the components of a path with no `.` or `..` against
/// nothing gives them back.
proof fn lemma_resolve_plain(p: Seq<char>)
    requires
        plain(components(p)),
    ensures
        resolve(Seq::empty(), components(p)) == components(p),
{
    let cs = components(p);
    lemma_name_components_kinds(p);
    let nc = name_components(p);
    assert forall|i: int| 0 <= i < nc.len() implies #[trigger] nc[i] is Normal by {
        assert(relative_component(nc[i]));
        assert(cs[i + head_component(p).len()] == nc[i]);
    }
    if p.len() > 0 && p[0] == '/' {
        assert(cs[0] == SpecComponent::RootDir);
        assert(cs.drop_first() =~= nc);
        lemma_resolve_names(seq![SpecComponent::RootDir], nc);
        assert(seq![SpecComponent::RootDir] + nc =~= cs);
    } else {
        assert(!starts_with_cur_dir(p)) by {
            if starts_with_cur_dir(p) {
                assert(cs[0] == SpecComponent::CurDir);
            }
        }
        assert(cs =~= nc);
        lemma_resolve_names(Seq::empty(), nc);
        assert(Seq::<SpecComponent>::empty() + nc =~= nc);
    }
}

/// Joining the relative path from `base` to `target` onto `base` and
/// resolving the result lexically (each `..` dropping the component
/// before it) gives the components of `target`, when the two share an
/// ancestor and neither holds a `.` or `..` component.
pub proof fn lemma_join_relative_path(target: Seq<char>, base: Seq<char>)
    requires
        share_ancestor(target, base),
        plain(components(target)),
        plain(components(base)),
    ensures
        resolve(Seq::empty(), components(join_spec(base, relative_path(target, base)))) == components(target),
{
    let rel = relative_path(target, base);
    let rcs = relative_components(components(target), components(base));
    lemma_relative_path_round_trip(target, base);
    assert(components(rel) == rcs);
    assert(base.len() > 0) by {
        if base.len() == 0 {
            assert(components(base) =~= Seq::<SpecComponent>::empty());
        }
    }
    assert(rel.len() == 0 || rel[0] != '/') by {
        if rel.len() > 0 && rel[0] == '/' {
            assert(components(rel)[0] == SpecComponent::RootDir);
            let k = common_prefix_len(components(target), components(base));
            lemma_common_prefix_len(components(target), components(base));
            assert forall|i: int| 0 <= i < rcs.len() implies relative_component(#[trigger] rcs[i]) by {
                lemma_name_components_kinds(target);
                if i >= (components(base).len() - k) {
                    let t = components(target);
                    assert(rcs[i] == t[i - (components(base).len() - k) + k]);
                    assert(i - (components(base).len() - k) + k >= 1);
                    assert(t[i - (components(base).len() - k) + k] == name_components(target)[i
                        - (components(base).len() - k) + k - head_component(target).len()]);
                }
            }
            assert(relative_component(rcs[0]));
        }
    }
    assert(!starts_with_cur_dir(rel) || rel.len() == 0) by {
        if rel.len() > 0 && starts_with_cur_dir(rel) && rel[0] != '/' {
            assert(components(rel)[0] == SpecComponent::CurDir);
            assert(rcs.len() > 0);
            assert(rcs[0] is ParentDir || rcs[0] is Normal) by {
                let k = common_prefix_len(components(target), components(base));
                lemma_common_prefix_len(components(target), components(base));
                if components(base).len() - k == 0 {
                    let t = components(target);
                    assert(rcs[0] == t[k as int]);
                    assert(plain(t));
                    assert(!(t[k as int] is CurDir));
                    assert(k >= 1);
                    lemma_name_components_kinds(target);
                    assert(t[k as int] == name_components(target)[k - head_component(target).len()]);
                    assert(relative_component(name_components(target)[k - head_component(target).len()]));
                }
            }
        }
    }
    lemma_components_of_join(base, rel);
    assert(components(rel) == head_component(rel) + name_components(rel));
    assert(head_component(rel) =~= Seq::<SpecComponent>::empty());
    assert(name_components(rel) =~= rcs);
    lemma_resolve_append(Seq::empty(), components(base), rcs);
    lemma_resolve_plain(base);
}

} // verus!
