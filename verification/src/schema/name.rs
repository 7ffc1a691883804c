//! Names of schemas and of fields: what a well-formed name is, and how a
//! name and a namespace make a full name.

use vstd::prelude::*;
use crate::schema::error::{Error, ErrorCode};
use crate::schema::json::Json;

verus! {

/// A letter of the Latin alphabet or an underscore: what a segment starts with.
pub open spec fn is_name_start(c: char) -> bool {
    ('A' <= c && c <= 'Z') || ('a' <= c && c <= 'z') || c == '_'
}

/// What a segment goes on with: a letter, an underscore or a digit.
pub open spec fn is_name_char(c: char) -> bool {
    is_name_start(c) || ('0' <= c && c <= '9')
}

/// A segment of a name: not empty, started by a letter or an underscore, made
/// of letters, underscores and digits.
pub open spec fn is_name_segment(s: Seq<char>) -> bool {
    &&& s.len() > 0
    &&& is_name_start(s[0])
    &&& forall|i: int| 0 <= i < s.len() ==> is_name_char(#[trigger] s[i])
}

/// The pieces between the dots of a name, in their order. A name without a
/// dot is one piece; a dot at either end leaves an empty piece there.
pub open spec fn segments(name: Seq<char>) -> Seq<Seq<char>>
    decreases name.len(),
{
    if name.len() == 0 {
        seq![Seq::empty()]
    } else {
        let before = segments(name.drop_last());
        if name.last() == '.' {
            before.push(Seq::empty())
        } else {
            before.drop_last().push(before.last().push(name.last()))
        }
    }
}

/// A name is well formed when each piece between its dots is a segment.
pub open spec fn well_formed_name(name: Seq<char>) -> bool {
    forall|i: int| 0 <= i < segments(name).len() ==> is_name_segment(#[trigger] segments(name)[i])
}

/// The pieces put together again, with a dot between neighbours.
pub open spec fn join_dots(parts: Seq<Seq<char>>) -> Seq<char>
    decreases parts.len(),
{
    if parts.len() == 0 {
        Seq::empty()
    } else if parts.len() == 1 {
        parts[0]
    } else {
        join_dots(parts.drop_last()) + seq!['.'] + parts.last()
    }
}

/// The name that `name` stands for inside the namespace `namespace`: a name
/// with a dot in it is complete and stands for itself.
pub open spec fn qualified(namespace: Seq<char>, name: Seq<char>) -> Seq<char> {
    if name.contains('.') {
        name
    } else {
        namespace + seq!['.'] + name
    }
}

/// The full name that an object declares: its `name`, inside its `namespace`
/// where it has one; empty where it has no name.
pub open spec fn declared_name(object: Json) -> Seq<char> {
    match object.get_string("name"@) {
        Some(name) => match object.get_string("namespace"@) {
            Some(namespace) => qualified(namespace, name),
            None => name,
        },
        None => Seq::empty(),
    }
}

/// The name by which a field is checked: its own name, inside the namespace
/// of its record where the record has one that is not empty.
pub open spec fn field_name(namespace: Option<Seq<char>>, name: Seq<char>) -> Seq<char> {
    match namespace {
        Some(ns) => if ns.len() == 0 {
            name
        } else {
            qualified(ns, name)
        },
        None => name,
    }
}

/// A name that holds a dot is the full name, whatever the namespace.
pub proof fn lemma_dotted_name_ignores_namespace(object: Json, name: Seq<char>)
    requires
        object.get_string("name"@) == Some(name),
        name.contains('.'),
    ensures
        declared_name(object) == name,
{
}

/// A name without a dot stands inside the namespace: the namespace, a dot,
/// the name.
pub proof fn lemma_plain_name_takes_namespace(
    object: Json,
    name: Seq<char>,
    namespace: Seq<char>,
)
    requires
        object.get_string("name"@) == Some(name),
        object.get_string("namespace"@) == Some(namespace),
        !name.contains('.'),
    ensures
        declared_name(object) == namespace + seq!['.'] + name,
{
}

/// A name that is not empty has at least one piece, and the last piece holds
/// no dot.
pub proof fn lemma_segments_shape(name: Seq<char>)
    ensures
        segments(name).len() >= 1,
        !segments(name).last().contains('.'),
    decreases name.len(),
{
    if name.len() > 0 {
        lemma_segments_shape(name.drop_last());
        let before = segments(name.drop_last());
        if name.last() != '.' {
            let piece = before.last().push(name.last());
            if piece.contains('.') {
                let k = choose|k: int| 0 <= k < piece.len() && piece[k] == '.';
                assert(before.last()[k] == '.');
            }
        }
    } else {
        assert(!Seq::<char>::empty().contains('.'));
    }
}

/// Text without a dot, put behind a name, makes the last piece longer.
pub proof fn lemma_segments_extend(name: Seq<char>, tail: Seq<char>)
    requires
        !tail.contains('.'),
    ensures
        segments(name + tail) == segments(name).drop_last().push(segments(name).last() + tail),
    decreases tail.len(),
{
    lemma_segments_shape(name);
    if tail.len() == 0 {
        assert(name + tail == name);
        assert(segments(name).last() + tail == segments(name).last());
        assert(segments(name).drop_last().push(segments(name).last()) == segments(name));
    } else {
        let front = tail.drop_last();
        assert(tail[tail.len() - 1] != '.');
        assert(!front.contains('.')) by {
            if front.contains('.') {
                let k = choose|k: int| 0 <= k < front.len() && front[k] == '.';
                assert(tail[k] == '.');
            }
        }
        lemma_segments_extend(name, front);
        assert((name + tail).drop_last() == name + front);
        assert((name + tail).last() == tail.last());
        let before = segments(name + front);
        assert(before.last() == segments(name).last() + front);
        assert(before.last().push(tail.last()) == segments(name).last() + tail);
        assert(before.drop_last() == segments(name).drop_last());
    }
}

/// Pieces without dots, joined by dots, come apart into the same pieces.
pub proof fn lemma_segments_of_join(parts: Seq<Seq<char>>)
    requires
        parts.len() > 0,
        forall|i: int| 0 <= i < parts.len() ==> !(#[trigger] parts[i]).contains('.'),
    ensures
        segments(join_dots(parts)) == parts,
    decreases parts.len(),
{
    if parts.len() == 1 {
        let none = Seq::<char>::empty();
        lemma_segments_extend(none, parts[0]);
        assert(none + parts[0] == parts[0]);
        assert(segments(none) == seq![none]);
        assert(seq![none].drop_last().push(none + parts[0]) == parts);
    } else {
        let front = parts.drop_last();
        assert forall|i: int| 0 <= i < front.len() implies !(#[trigger] front[i]).contains('.') by {
            assert(front[i] == parts[i]);
        }
        lemma_segments_of_join(front);
        let joined = join_dots(front);
        let dotted = joined + seq!['.'];
        assert(dotted.drop_last() == joined);
        assert(dotted.last() == '.');
        assert(segments(dotted) == front.push(Seq::empty()));
        lemma_segments_extend(dotted, parts.last());
        assert(Seq::<char>::empty() + parts.last() == parts.last());
        assert(front.push(Seq::empty()).drop_last() == front);
        assert(front.push(parts.last()) == parts);
    }
}

/// A segment holds no dot.
pub proof fn lemma_segment_has_no_dot(s: Seq<char>)
    requires
        is_name_segment(s),
    ensures
        !s.contains('.'),
{
    if s.contains('.') {
        let k = choose|k: int| 0 <= k < s.len() && s[k] == '.';
        assert(is_name_char(s[k]));
    }
}

/// Segments joined by dots make a well-formed name: `check_name_segments`
/// hands such a name back unchanged.
pub proof fn lemma_joined_segments_are_well_formed(parts: Seq<Seq<char>>)
    requires
        parts.len() > 0,
        forall|i: int| 0 <= i < parts.len() ==> is_name_segment(#[trigger] parts[i]),
    ensures
        well_formed_name(join_dots(parts)),
{
    assert forall|i: int| 0 <= i < parts.len() implies !(#[trigger] parts[i]).contains('.') by {
        lemma_segment_has_no_dot(parts[i]);
    }
    lemma_segments_of_join(parts);
}

/// A name with one piece that is no segment (an empty piece, one that starts
/// with a digit, one that holds a character outside the grammar) is not well
/// formed: `check_name_segments` rejects it.
pub proof fn lemma_one_bad_piece_spoils_the_name(parts: Seq<Seq<char>>, bad: int)
    requires
        0 <= bad < parts.len(),
        forall|i: int| 0 <= i < parts.len() ==> !(#[trigger] parts[i]).contains('.'),
        !is_name_segment(parts[bad]),
    ensures
        !well_formed_name(join_dots(parts)),
{
    lemma_segments_of_join(parts);
    assert(segments(join_dots(parts))[bad] == parts[bad]);
}

/// Whether a character may start a segment.
pub fn name_start(c: char) -> (r: bool)
    ensures
        r == is_name_start(c),
{
    ('A' <= c && c <= 'Z') || ('a' <= c && c <= 'z') || c == '_'
}

/// Whether a character may stand inside a segment.
pub fn name_char(c: char) -> (r: bool)
    ensures
        r == is_name_char(c),
{
    name_start(c) || ('0' <= c && c <= '9')
}

/// What a scan has seen of a name: the pieces closed by a dot are segments,
/// and the open piece can still become one.
pub open spec fn scan_ok(prefix: Seq<char>) -> bool {
    let pieces = segments(prefix);
    &&& forall|i: int| 0 <= i < pieces.len() - 1 ==> is_name_segment(#[trigger] pieces[i])
    &&& (pieces.last().len() == 0 || is_name_segment(pieces.last()))
}

/// How one more character changes what a scan has seen.
pub proof fn lemma_scan_step(prefix: Seq<char>, c: char)
    ensures
        segments(prefix.push(c)).last().len() == 0 <==> c == '.',
        scan_ok(prefix.push(c)) == (scan_ok(prefix) && if c == '.' {
            segments(prefix).last().len() > 0
        } else if segments(prefix).last().len() == 0 {
            is_name_start(c)
        } else {
            is_name_char(c)
        }),
{
    lemma_segments_shape(prefix);
    let next = prefix.push(c);
    assert(next.drop_last() == prefix);
    assert(next.last() == c);
    let old_pieces = segments(prefix);
    let pieces = segments(next);
    let open = old_pieces.last();
    if c == '.' {
        assert(pieces == old_pieces.push(Seq::empty()));
        assert(pieces[pieces.len() - 2] == open);
        if scan_ok(prefix) && open.len() > 0 {
            assert forall|i: int| 0 <= i < pieces.len() - 1 implies is_name_segment(
                #[trigger] pieces[i],
            ) by {
                if i < old_pieces.len() - 1 {
                    assert(pieces[i] == old_pieces[i]);
                }
            }
        }
        if scan_ok(next) {
            assert(is_name_segment(pieces[pieces.len() - 2]));
            assert forall|i: int| 0 <= i < old_pieces.len() - 1 implies is_name_segment(
                #[trigger] old_pieces[i],
            ) by {
                assert(pieces[i] == old_pieces[i]);
            }
        }
    } else {
        let grown = open.push(c);
        assert(pieces == old_pieces.drop_last().push(grown));
        assert(pieces.last() == grown);
        assert(grown[grown.len() - 1] == c);
        assert forall|i: int| 0 <= i < pieces.len() - 1 implies pieces[i] == old_pieces[i] by {}
        if open.len() == 0 {
            assert(grown[0] == c);
            if is_name_start(c) {
                assert(is_name_segment(grown));
            }
        } else {
            assert(grown[0] == open[0]);
            if is_name_segment(open) && is_name_char(c) {
                assert forall|i: int| 0 <= i < grown.len() implies is_name_char(
                    #[trigger] grown[i],
                ) by {
                    if i < open.len() {
                        assert(grown[i] == open[i]);
                    }
                }
            }
            if is_name_segment(grown) {
                assert forall|i: int| 0 <= i < open.len() implies is_name_char(
                    #[trigger] open[i],
                ) by {
                    assert(grown[i] == open[i]);
                }
                assert(is_name_char(grown[grown.len() - 1]));
            }
        }
        if scan_ok(next) {
            assert forall|i: int| 0 <= i < old_pieces.len() - 1 implies is_name_segment(
                #[trigger] old_pieces[i],
            ) by {
                assert(pieces[i] == old_pieces[i]);
            }
        }
        if scan_ok(prefix) {
            assert forall|i: int| 0 <= i < pieces.len() - 1 implies is_name_segment(
                #[trigger] pieces[i],
            ) by {
                assert(pieces[i] == old_pieces[i]);
            }
        }
    }
}

/// A scan of the whole name decides whether it is well formed.
pub proof fn lemma_scan_end(name: Seq<char>)
    ensures
        well_formed_name(name) == (scan_ok(name) && segments(name).last().len() > 0),
{
    lemma_segments_shape(name);
    let pieces = segments(name);
    if well_formed_name(name) {
        assert(is_name_segment(pieces[pieces.len() - 1]));
    }
}

/// Whether a name is well formed.
pub fn is_well_formed_name(name: &str) -> (r: bool)
    ensures
        r == well_formed_name(name@),
{
    let mut ok = true;
    let mut open_is_empty = true;
    for c in iter: name.chars()
        invariant
            iter.seq() == name@,
            ok == scan_ok(name@.take(iter.index())),
            open_is_empty == (segments(name@.take(iter.index())).last().len() == 0),
    {
        proof {
            lemma_scan_step(name@.take(iter.index()), c);
            assert(name@.take(iter.index() + 1) == name@.take(iter.index()).push(c));
        }
        if c == '.' {
            ok = ok && !open_is_empty;
            open_is_empty = true;
        } else {
            ok = ok && if open_is_empty {
                name_start(c)
            } else {
                name_char(c)
            };
            open_is_empty = false;
        }
    }
    proof {
        assert(name@.take(name@.len() as int) == name@);
        lemma_scan_end(name@);
    }
    ok && !open_is_empty
}

/// Hands a well-formed name back unchanged and rejects any other name.
pub fn check_name_segments(name: String) -> (r: Result<String, Error>)
    ensures
        match r {
            Ok(same) => well_formed_name(name@) && same == name,
            Err(e) => !well_formed_name(name@) && e == Error::rule(ErrorCode::NotWellFormedName),
        },
{
    if is_well_formed_name(name.as_str()) {
        Ok(name)
    } else {
        Err(Error::from_code(ErrorCode::NotWellFormedName))
    }
}

/// The name that `name` stands for inside the namespace `namespace`.
pub fn qualify(namespace: &str, name: &str) -> (r: String)
    ensures
        r@ == qualified(namespace@, name@),
{
    if crate::schema::text::contains_char(name, '.') {
        name.to_owned()
    } else {
        let mut full = namespace.to_owned();
        full.append(".");
        full.append(name);
        proof {
            reveal_strlit(".");
            assert("."@ == seq!['.']);
        }
        full
    }
}

} // verus!
