//! Choice of the local file name for a downloaded file.
//!
//! The name is taken from the path of the address that finally answered the
//! download: its last slash-separated segment. A path that does not begin
//! with a slash has no segments, and one that ends in a slash has an empty
//! last segment; both fall back to a fixed name.

use vstd::prelude::*;
use vstd::string::StrSliceExecFns;
use vstd::string::StringExecFns;

use crate::endpoint::media_path;

verus! {

/// Name given to a download whose address has no last segment.
pub open spec fn fallback_name() -> Seq<char> {
    "tmp.bin"@
}

/// The pieces into which the slashes of `text` cut it, in order. There is
/// one piece more than there are slashes, and a piece may be empty.
pub open spec fn split_at_slashes(text: Seq<char>) -> Seq<Seq<char>>
    decreases text.len(),
{
    if text.len() == 0 {
        seq![Seq::empty()]
    } else {
        let front = split_at_slashes(text.drop_last());
        if text.last() == '/' {
            front.push(Seq::empty())
        } else {
            front.drop_last().push(front.last().push(text.last()))
        }
    }
}

/// The pieces put together again, with a slash between each two.
pub open spec fn join_with_slashes(pieces: Seq<Seq<char>>) -> Seq<char>
    decreases pieces.len(),
{
    if pieces.len() == 0 {
        Seq::empty()
    } else if pieces.len() == 1 {
        pieces[0]
    } else {
        join_with_slashes(pieces.drop_last()) + seq!['/'] + pieces.last()
    }
}

/// The segments of `path`: what follows its leading slash, cut at every
/// further slash. A path that does not begin with a slash has none.
pub open spec fn path_segments(path: Seq<char>) -> Option<Seq<Seq<char>>> {
    if path.len() > 0 && path[0] == '/' {
        Some(split_at_slashes(path.skip(1)))
    } else {
        None
    }
}

/// Whether `path` has segments and the last of them is not empty.
pub open spec fn has_final_segment(path: Seq<char>) -> bool {
    match path_segments(path) {
        Some(segments) => segments.last().len() > 0,
        None => false,
    }
}

/// Local name for a download answered from `path`: the last segment of the
/// path, or the fallback name where there is no such segment or it is empty.
pub open spec fn local_name(path: Seq<char>) -> Seq<char> {
    match path_segments(path) {
        Some(segments) => if segments.last().len() > 0 {
            segments.last()
        } else {
            fallback_name()
        },
        None => fallback_name(),
    }
}

/// Index just past the last slash of `text`; 0 when it holds none.
pub open spec fn segment_start(text: Seq<char>) -> int
    decreases text.len(),
{
    if text.len() == 0 {
        0
    } else if text.last() == '/' {
        text.len() as int
    } else {
        segment_start(text.drop_last())
    }
}

/// What follows the last slash of `text`; all of it when it holds none.
pub open spec fn final_segment(text: Seq<char>) -> Seq<char> {
    text.subrange(segment_start(text), text.len() as int)
}

/// `segment_start` marks the longest slash-free tail of `text`: nothing from
/// it onward is a slash, and what stands just before it, if anything, is one.
pub proof fn lemma_segment_start(text: Seq<char>)
    ensures
        0 <= segment_start(text) <= text.len(),
        forall|k: int| segment_start(text) <= k < text.len() ==> text[k] != '/',
        segment_start(text) > 0 ==> text[segment_start(text) - 1] == '/',
    decreases text.len(),
{
    if text.len() > 0 && text.last() != '/' {
        let front = text.drop_last();
        lemma_segment_start(front);
        assert forall|k: int| segment_start(text) <= k < text.len() implies text[k] != '/' by {
            if k < front.len() {
                assert(front[k] == text[k]);
            }
        }
    }
}

/// Cutting at the slashes loses nothing and leaves no slash: no piece holds
/// one, and the pieces joined by slashes are the text again.
pub proof fn law_split_is_faithful(text: Seq<char>)
    ensures
        split_at_slashes(text).len() >= 1,
        forall|p: int, k: int|
            0 <= p < split_at_slashes(text).len() && 0 <= k < split_at_slashes(text)[p].len()
                ==> split_at_slashes(text)[p][k] != '/',
        join_with_slashes(split_at_slashes(text)) == text,
    decreases text.len(),
{
    let pieces = split_at_slashes(text);
    if text.len() > 0 {
        let front = split_at_slashes(text.drop_last());
        law_split_is_faithful(text.drop_last());
        if text.last() == '/' {
            assert(pieces.drop_last() == front);
            assert(join_with_slashes(pieces) == text.drop_last() + seq!['/'] + Seq::<char>::empty());
        } else {
            let grown = front.last().push(text.last());
            assert forall|p: int, k: int|
                0 <= p < pieces.len() && 0 <= k < pieces[p].len() implies pieces[p][k] != '/' by {
                if p < pieces.len() - 1 {
                    assert(pieces[p] == front[p]);
                } else if k < front.last().len() {
                    assert(pieces[p][k] == front.last()[k]);
                }
            }
            if front.len() > 1 {
                assert(pieces.drop_last() == front.drop_last());
                assert(join_with_slashes(pieces) == (join_with_slashes(front.drop_last())
                    + seq!['/'] + front.last()).push(text.last()));
            }
            assert(join_with_slashes(pieces) == join_with_slashes(front).push(text.last()));
        }
        assert(join_with_slashes(pieces) == text);
    }
}

/// Cutting at the slashes leaves at least one piece, and the last piece is
/// what follows the last slash.
pub proof fn lemma_last_piece(text: Seq<char>)
    ensures
        split_at_slashes(text).len() >= 1,
        split_at_slashes(text).last() == final_segment(text),
    decreases text.len(),
{
    if text.len() == 0 {
        assert(final_segment(text) == Seq::<char>::empty());
    } else if text.last() == '/' {
        lemma_last_piece(text.drop_last());
        assert(final_segment(text) == Seq::<char>::empty());
    } else {
        let front = text.drop_last();
        lemma_last_piece(front);
        lemma_segment_start(front);
        assert(final_segment(text) == final_segment(front).push(text.last()));
    }
}

/// A leading slash has no part in what follows the last slash.
pub proof fn lemma_leading_slash(path: Seq<char>)
    requires
        path.len() > 0,
        path[0] == '/',
    ensures
        segment_start(path) == segment_start(path.skip(1)) + 1,
        final_segment(path) == final_segment(path.skip(1)),
    decreases path.len(),
{
    let rest = path.skip(1);
    if path.len() > 1 {
        assert(rest.last() == path.last());
        if path.last() != '/' {
            assert(rest.drop_last() == path.drop_last().skip(1));
            lemma_leading_slash(path.drop_last());
        }
    }
    lemma_segment_start(rest);
    assert(final_segment(path) == final_segment(rest));
}

/// The last segment of a path that has segments is what follows the last
/// slash of the path.
pub proof fn lemma_last_segment(path: Seq<char>)
    requires
        path_segments(path) is Some,
    ensures
        path_segments(path)->0.len() >= 1,
        path_segments(path)->0.last() == final_segment(path),
        has_final_segment(path) <==> segment_start(path) < path.len(),
{
    lemma_last_piece(path.skip(1));
    lemma_leading_slash(path);
    lemma_segment_start(path);
}

/// A slash followed by slash-free text ends a path in exactly that text.
pub proof fn lemma_final_segment_of_join(front: Seq<char>, name: Seq<char>)
    requires
        forall|k: int| 0 <= k < name.len() ==> name[k] != '/',
    ensures
        segment_start(front + seq!['/'] + name) == front.len() + 1,
        final_segment(front + seq!['/'] + name) == name,
    decreases name.len(),
{
    let path = front + seq!['/'] + name;
    if name.len() == 0 {
        assert(path.last() == '/');
    } else {
        assert(path.last() == name.last());
        assert(path.drop_last() == front + seq!['/'] + name.drop_last());
        lemma_final_segment_of_join(front, name.drop_last());
    }
    assert(path.subrange(front.len() as int + 1, path.len() as int) == name);
}

/// A download that is answered from the address it was requested at is
/// stored under the name the camera lists for it, provided that name is not
/// empty and holds no slash.
pub proof fn law_requested_name_is_kept(directory: Seq<char>, name: Seq<char>)
    requires
        name.len() > 0,
        forall|k: int| 0 <= k < name.len() ==> name[k] != '/',
    ensures
        has_final_segment(media_path(directory, name)),
        local_name(media_path(directory, name)) == name,
{
    reveal_strlit("/");
    reveal_strlit("/videos/DCIM/");
    let front = "/videos/DCIM/"@ + directory;
    let path = media_path(directory, name);
    assert("/"@ == seq!['/']);
    assert(path == front + seq!['/'] + name);
    assert(path[0] == '/');
    lemma_final_segment_of_join(front, name);
    lemma_last_segment(path);
}

/// Chooses the local file name for a download answered from `path`, the
/// path of the resolved address.
pub fn local_file_name(path: &str) -> (name: String)
    ensures
        name@ == local_name(path@),
        !has_final_segment(path@) ==> name@ == fallback_name(),
{
    let len = path.unicode_len();
    let mut start: usize = 0;
    let mut seen: usize = 0;
    for c in it: path.chars()
        invariant
            seen == it.index(),
            it.seq() == path@,
            len == path@.len(),
            start == segment_start(path@.take(seen as int)),
    {
        assert(path@.take(seen + 1).drop_last() == path@.take(seen as int));
        seen = seen + 1;
        if c == '/' {
            start = seen;
        }
    }
    assert(path@.take(seen as int) == path@);
    if len > 0 && start < len && path.get_char(0) == '/' {
        proof {
            lemma_last_segment(path@);
        }
        String::from_str(path.substring_char(start, len))
    } else {
        proof {
            if path_segments(path@) is Some {
                lemma_last_segment(path@);
            }
        }
        String::from_str("tmp.bin")
    }
}

} // verus!
