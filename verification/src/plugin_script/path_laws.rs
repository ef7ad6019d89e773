//! What holds of every path, and of every path that is reported.

use vstd::prelude::*;
use vstd::utf8::encode_utf8;

use crate::plugin_script::path::{
    is_name, is_well_formed, normal_texts, slash_joined, ComponentView, NameView, PathView,
};

verus! {

/// A part of a well-formed path is well-formed.
pub proof fn parts_are_well_formed(path: PathView, from: int, to: int)
    requires
        is_well_formed(path),
        0 <= from <= to <= path.len(),
    ensures
        is_well_formed(path.subrange(from, to)),
        is_well_formed(path.skip(from)),
        is_well_formed(path.take(to)),
{
}

/// What slashes part `text` into.
pub open spec fn segments(text: Seq<char>) -> Seq<Seq<char>>
    decreases text.len(),
{
    if text.len() == 0 {
        seq![Seq::empty()]
    } else {
        let earlier = segments(text.drop_last());
        if text.last() == '/' {
            earlier.push(Seq::empty())
        } else {
            earlier.drop_last().push(earlier.last().push(text.last()))
        }
    }
}

/// The component that a segment of a text stands for, if it stands for one:
/// slashes next to each other count as one, and `.` counts at the start only.
pub open spec fn segment_component(segment: Seq<char>, is_first: bool) -> Option<ComponentView> {
    if segment.len() == 0 {
        if is_first {
            Some(ComponentView::RootDir)
        } else {
            None
        }
    } else if segment == "."@ {
        if is_first {
            Some(ComponentView::CurDir)
        } else {
            None
        }
    } else if segment == ".."@ {
        Some(ComponentView::ParentDir)
    } else {
        Some(ComponentView::Normal(NameView { bytes: encode_utf8(segment), text: segment }))
    }
}

/// The path that the segments `parts` stand for.
pub open spec fn segments_path(parts: Seq<Seq<char>>) -> PathView
    decreases parts.len(),
{
    if parts.len() == 0 {
        Seq::empty()
    } else {
        let earlier = segments_path(parts.drop_last());
        match segment_component(parts.last(), parts.len() == 1) {
            Some(component) => earlier.push(component),
            None => earlier,
        }
    }
}

/// The path that `text` writes with slashes, from a root where one stands first.
pub open spec fn written_path(text: Seq<char>) -> PathView {
    if text.len() == 0 {
        Seq::empty()
    } else {
        segments_path(segments(text))
    }
}

/// The text is empty, or slashes part it into names.
pub open spec fn is_normal(text: Seq<char>) -> bool {
    text.len() == 0 || forall|i: int|
        0 <= i < segments(text).len() ==> is_name(#[trigger] segments(text)[i])
}

proof fn lemma_segments_have_no_slash(text: Seq<char>)
    ensures
        segments(text).len() > 0,
        forall|i: int|
            0 <= i < segments(text).len() ==> !(#[trigger] segments(text)[i]).contains('/'),
    decreases text.len(),
{
    if text.len() > 0 {
        let earlier = segments(text.drop_last());
        lemma_segments_have_no_slash(text.drop_last());
        if text.last() != '/' {
            let grown = earlier.last().push(text.last());
            assert(!earlier[earlier.len() - 1].contains('/'));
            assert(!grown.contains('/')) by {
                if grown.contains('/') {
                    let k = choose|k: int| 0 <= k < grown.len() && grown[k] == '/';
                    assert(k < earlier.last().len());
                    assert(earlier.last()[k] == '/');
                }
            }
        }
    }
}

proof fn lemma_segments_path_is_well_formed(parts: Seq<Seq<char>>)
    requires
        forall|i: int| 0 <= i < parts.len() ==> !(#[trigger] parts[i]).contains('/'),
    ensures
        is_well_formed(segments_path(parts)),
    decreases parts.len(),
{
    if parts.len() > 0 {
        let fewer = parts.drop_last();
        assert forall|i: int| 0 <= i < fewer.len() implies !(#[trigger] fewer[i]).contains('/') by {
            assert(fewer[i] == parts[i]);
        }
        lemma_segments_path_is_well_formed(fewer);
        assert(!parts[parts.len() - 1].contains('/'));
    }
}

/// Every text writes a well-formed path.
pub proof fn written_paths_are_well_formed(text: Seq<char>)
    ensures
        is_well_formed(written_path(text)),
{
    lemma_segments_have_no_slash(text);
    lemma_segments_path_is_well_formed(segments(text));
}

proof fn lemma_normal_texts_are_names(path: PathView)
    requires
        is_well_formed(path),
    ensures
        forall|i: int|
            0 <= i < normal_texts(path).len() ==> is_name(#[trigger] normal_texts(path)[i]),
    decreases path.len(),
{
    if path.len() > 0 {
        parts_are_well_formed(path, 0, path.len() - 1);
        assert(path.drop_last() =~= path.take(path.len() - 1));
        lemma_normal_texts_are_names(path.drop_last());
        let earlier = normal_texts(path.drop_last());
        assert forall|i: int| 0 <= i < normal_texts(path).len() implies is_name(
            #[trigger] normal_texts(path)[i],
        ) by {
            if i < earlier.len() {
                assert(is_name(earlier[i]));
            } else {
                assert(path[path.len() - 1] is Normal);
            }
        }
    }
}

/// A segment behind a slash comes last.
proof fn lemma_segments_append(front: Seq<char>, segment: Seq<char>)
    requires
        !segment.contains('/'),
    ensures
        segments(front + "/"@ + segment) == segments(front).push(segment),
    decreases segment.len(),
{
    reveal_strlit("/");
    let text = front + "/"@ + segment;
    if segment.len() == 0 {
        assert(text.drop_last() =~= front);
        assert(text.last() == '/');
        assert(segment =~= Seq::empty());
    } else {
        let shorter = segment.drop_last();
        assert(!shorter.contains('/')) by {
            if shorter.contains('/') {
                let k = choose|k: int| 0 <= k < shorter.len() && shorter[k] == '/';
                assert(segment[k] == '/');
            }
        }
        lemma_segments_append(front, shorter);
        assert(text.drop_last() =~= front + "/"@ + shorter);
        assert(text.last() == segment.last());
        assert(segment.contains(segment.last()));
        let earlier = segments(text.drop_last());
        assert(earlier.drop_last() =~= segments(front));
        assert(shorter.push(segment.last()) =~= segment);
    }
}

proof fn lemma_segments_of_one(segment: Seq<char>)
    requires
        !segment.contains('/'),
    ensures
        segments(segment) == seq![segment],
    decreases segment.len(),
{
    if segment.len() == 0 {
        assert(segment =~= Seq::empty());
    } else {
        let shorter = segment.drop_last();
        assert(!shorter.contains('/')) by {
            if shorter.contains('/') {
                let k = choose|k: int| 0 <= k < shorter.len() && shorter[k] == '/';
                assert(segment[k] == '/');
            }
        }
        lemma_segments_of_one(shorter);
        assert(segment.contains(segment.last()));
        assert(shorter.push(segment.last()) =~= segment);
        assert(segments(segment) =~= seq![segment]);
    }
}

/// Parting what slashes join gives back the parts, unless one holds a slash.
pub proof fn segments_undo_joining(parts: Seq<Seq<char>>)
    requires
        parts.len() > 0,
        forall|i: int| 0 <= i < parts.len() ==> !(#[trigger] parts[i]).contains('/'),
    ensures
        segments(slash_joined(parts)) == parts,
    decreases parts.len(),
{
    if parts.len() == 1 {
        lemma_segments_of_one(parts[0]);
        assert(seq![parts[0]] =~= parts);
    } else {
        let fewer = parts.drop_last();
        assert forall|i: int| 0 <= i < fewer.len() implies !(#[trigger] fewer[i]).contains('/') by {
            assert(fewer[i] == parts[i]);
        }
        segments_undo_joining(fewer);
        assert(!parts[parts.len() - 1].contains('/'));
        lemma_segments_append(slash_joined(fewer), parts.last());
        assert(fewer.push(parts.last()) =~= parts);
    }
}

proof fn lemma_names_stand_for_themselves(names: Seq<Seq<char>>)
    requires
        forall|i: int| 0 <= i < names.len() ==> is_name(#[trigger] names[i]),
    ensures
        normal_texts(segments_path(names)) == names,
    decreases names.len(),
{
    if names.len() > 0 {
        let fewer = names.drop_last();
        assert forall|i: int| 0 <= i < fewer.len() implies is_name(#[trigger] fewer[i]) by {
            assert(fewer[i] == names[i]);
        }
        lemma_names_stand_for_themselves(fewer);
        assert(is_name(names[names.len() - 1]));
        let path = segments_path(names);
        assert(path.drop_last() =~= segments_path(fewer));
        assert(fewer.push(names.last()) =~= names);
    } else {
        assert(names =~= Seq::empty());
    }
}

proof fn lemma_joined_ends(names: Seq<Seq<char>>)
    requires
        names.len() > 0,
        forall|i: int| 0 <= i < names.len() ==> is_name(#[trigger] names[i]),
    ensures
        slash_joined(names).len() > 0,
        slash_joined(names).first() == names[0][0],
        slash_joined(names).last() == names.last().last(),
    decreases names.len(),
{
    assert(is_name(names[names.len() - 1]));
    if names.len() > 1 {
        let fewer = names.drop_last();
        assert forall|i: int| 0 <= i < fewer.len() implies is_name(#[trigger] fewer[i]) by {
            assert(fewer[i] == names[i]);
        }
        lemma_joined_ends(fewer);
    }
}

/// The readable form of a well-formed path is normal: it is empty, or slashes
/// part it into names, so that it neither starts nor ends with a slash. The path
/// that it writes has it as its own readable form.
pub proof fn normalized_paths_are_normal(path: PathView)
    requires
        is_well_formed(path),
    ensures
        ({
            let text = slash_joined(normal_texts(path));
            &&& is_normal(text)
            &&& text.len() > 0 ==> text.first() != '/' && text.last() != '/'
            &&& text.len() > 0 ==> segments(text) == normal_texts(path)
            &&& slash_joined(normal_texts(written_path(text))) == text
        }),
{
    let names = normal_texts(path);
    lemma_normal_texts_are_names(path);
    if names.len() > 0 {
        assert forall|i: int| 0 <= i < names.len() implies !(#[trigger] names[i]).contains('/') by {
            assert(is_name(names[i]));
        }
        segments_undo_joining(names);
        lemma_names_stand_for_themselves(names);
        lemma_joined_ends(names);
        assert(is_name(names[0]));
        assert(names[0].contains(names[0][0]));
        assert(is_name(names[names.len() - 1]));
        assert(names.last().contains(names.last().last()));
    }
}

} // verus!
