//! What holds of a reader across its operations.
use vstd::prelude::*;

use crate::error::Failure;
use crate::reader::{
    any_spec, array_len_readable, array_len_spec, inc_field_spec, inc_seq_spec, resolve,
    value_of, walk, Entry, ReaderModel, Request,
};
use crate::structure::{BaseType, MessageFieldInfo, MessageStructure, ValueKind};
use crate::value::{decode, SimpleValue};

verus! {

/// True when at every level of a position the index is below the count.
pub open spec fn pos_in_bounds(pos: Seq<Entry>) -> bool {
    forall|i: int| 0 <= i < pos.len() ==> #[trigger] pos[i].0 < pos[i].1
}

/// Entering a sequence or array of `n` elements and advancing through it
/// visits the indices 0 to n - 1 in order, and advancing past the last one
/// leaves the reader exactly as it was before it entered.
pub proof fn law_sequence_round_trip(m: ReaderModel, n: int, k: int)
    requires
        m.current.value_kind != ValueKind::Simple,
        array_len_spec(m) == Ok::<int, Failure>(n),
        0 < n <= usize::MAX,
        0 <= k < n,
    ensures
        inc_seq_spec(m, true) == (
            Ok::<bool, Failure>(true),
            m.with_pos(m.pos.push((0usize, n as usize, true))),
        ),
        k + 1 < n ==> inc_seq_spec(m.with_pos(m.pos.push((k as usize, n as usize, true))), false)
            == (
            Ok::<bool, Failure>(true),
            m.with_pos(m.pos.push(((k + 1) as usize, n as usize, true))),
        ),
        k + 1 == n ==> inc_seq_spec(m.with_pos(m.pos.push((k as usize, n as usize, true))), false)
            == (Ok::<bool, Failure>(false), m),
{
    let s = m.with_pos(m.pos.push((k as usize, n as usize, true)));
    assert(s.pos.drop_last() =~= m.pos);
    assert(s.pos.drop_last().push(((k + 1) as usize, n as usize, true)) =~= m.pos.push(
        ((k + 1) as usize, n as usize, true),
    ));
    assert(m.with_pos(m.pos) == m);
}

/// The fields of the message are visited in declaration order: entering
/// the message points the reader at its first field, and each advance from
/// field k points it at field k + 1, at offset 0, until advancing past the
/// last field empties the position and reports that no field is left.
pub proof fn law_fields_in_order(m: ReaderModel, s: ReaderModel, k: int)
    requires
        m.pos.len() == 0,
        m.structure.fields@.len() > 0,
        0 <= k < m.structure.fields@.len(),
        s.structure == m.structure,
        s.pos == seq![(k as usize, m.structure.fields.len(), false)],
    ensures
        inc_field_spec(m, true) == (
            Ok::<bool, Failure>(true),
            ReaderModel {
                pos: seq![(0usize, m.structure.fields.len(), false)],
                current: m.structure.fields@[0],
                offset: 0,
                ..m
            },
        ),
        k + 1 < m.structure.fields@.len() ==> inc_field_spec(s, false) == (
            Ok::<bool, Failure>(true),
            ReaderModel {
                pos: seq![((k + 1) as usize, m.structure.fields.len(), false)],
                current: m.structure.fields@[k + 1],
                offset: 0,
                ..s
            },
        ),
        k + 1 == m.structure.fields@.len() ==> inc_field_spec(s, false) == (
            Ok::<bool, Failure>(false),
            s.with_pos(Seq::<Entry>::empty()),
        ),
{
    let n = m.structure.fields.len();
    let p0 = seq![(0usize, n, false)];
    assert(p0.skip(1) =~= Seq::<Entry>::empty());
    assert(s.pos.drop_last() =~= Seq::<Entry>::empty());
    let p1 = s.pos.drop_last().push(((k + 1) as usize, n, false));
    assert(p1 =~= seq![((k + 1) as usize, n, false)]);
    assert(p1.skip(1) =~= Seq::<Entry>::empty());
}

/// Entering a nested message field and leaving it again: entering points
/// the reader at the first field of the nested message, with the offset of
/// the nested message added; advancing past its last field returns the
/// reader exactly to where it was before it entered, wherever it pointed.
pub proof fn law_message_enter_leave(m: ReaderModel, c: MessageFieldInfo, o: int)
    requires
        m.pos.len() > 0,
        resolve(m.structure, m.pos) == Some((m.current, m.offset)),
        m.current.value_kind == ValueKind::Simple,
        m.current.base_type is Message,
        m.current.base_type->Message_0.fields@.len() > 0,
    ensures
        ({
            let ms = m.current.base_type->Message_0;
            let l = ms.fields.len();
            &&& inc_field_spec(m, true) == (
                Ok::<bool, Failure>(true),
                ReaderModel {
                    pos: m.pos.push((0usize, l, false)),
                    current: ms.fields@[0],
                    offset: m.offset + m.current.offset,
                    ..m
                },
            )
            &&& inc_field_spec(
                ReaderModel {
                    pos: m.pos.push(((l - 1) as usize, l, false)),
                    current: c,
                    offset: o,
                    ..m
                },
                false,
            ) == (Ok::<bool, Failure>(false), m)
        }),
{
    let ms = m.current.base_type->Message_0;
    let l = ms.fields.len();
    let e = (0usize, l, false);
    let p = m.pos.push(e);
    let first = m.structure.fields@[m.pos[0].0 as int];
    assert(p[0] == m.pos[0]);
    assert(p.skip(1) =~= m.pos.skip(1).push(e));
    assert(p.skip(1).drop_last() =~= m.pos.skip(1));
    let w = walk(first, m.pos.skip(1));
    assert(w matches Some((cur, off, _)) && cur == m.current && off == m.offset);
    assert(resolve(m.structure, p) == Some((ms.fields@[0], m.offset + m.current.offset)));
    let q = m.pos.push(((l - 1) as usize, l, false));
    assert(q.drop_last() =~= m.pos);
}

/// When a self-describing read asks for a tuple, its length is the number
/// of elements that entering the field reports, and the field can be
/// entered: it is not a simple field.
pub proof fn law_any_tuple_length(m: ReaderModel, n: usize)
    requires
        any_spec(m) == Ok::<Request, Failure>(Request::Tuple(n)),
    ensures
        array_len_spec(m) == Ok::<int, Failure>(n as int),
        m.current.value_kind != ValueKind::Simple,
{
}

/// A read at a top-level simple field gives back what the storage holds at
/// that field's offset, decoded as the field's type.
pub proof fn law_top_level_read(s: ReaderModel, k: int)
    requires
        0 <= k < s.structure.fields@.len(),
        s.pos == seq![(k as usize, s.structure.fields.len(), false)],
        s.current == s.structure.fields@[k],
        s.offset == 0,
        s.current.value_kind == ValueKind::Simple,
    ensures
        value_of(s) == Ok::<SimpleValue, Failure>(
            decode(s.structure.fields@[k].base_type, s.storage, s.structure.fields@[k].offset as int),
        ),
{
}

/// The message type and start offset of the message value that a position
/// designates: the whole message where the position is empty, else a
/// message field or an element of a sequence or array of messages.
pub open spec fn message_at(s: MessageStructure, pos: Seq<Entry>) -> Option<(MessageStructure, int)> {
    if pos.len() == 0 {
        Some((s, 0))
    } else if pos[0].0 >= s.fields@.len() {
        None
    } else {
        match walk(s.fields@[pos[0].0 as int], pos.skip(1)) {
            Some((f, off, skip)) => match f.base_type {
                BaseType::Message(ms) => if f.value_kind == ValueKind::Simple || skip {
                    Some((*ms, off + f.offset))
                } else {
                    None
                },
                _ => None,
            },
            None => None,
        }
    }
}

/// True when the reader stands on a message value of type `ms` that starts
/// at `o`: below the top level, its current field and offset are those
/// that its position designates.
pub open spec fn on_message(m: ReaderModel, ms: MessageStructure, o: int) -> bool {
    &&& message_at(m.structure, m.pos) == Some((ms, o))
    &&& m.pos.len() > 0 ==> resolve(m.structure, m.pos) == Some((m.current, m.offset))
}

/// The reader `m`, standing on a message value of type `ms` that starts at
/// `o`, moved to field `k` of that value.
pub open spec fn at_field(m: ReaderModel, ms: MessageStructure, o: int, k: int) -> ReaderModel {
    ReaderModel {
        pos: m.pos.push((k as usize, ms.fields.len(), false)),
        current: ms.fields@[k],
        offset: o,
        ..m
    }
}

/// Whether an access is still fresh, and the reader, after `j` calls of
/// `next_key` from a fresh access on `m`.
pub open spec fn key_calls(m: ReaderModel, j: nat) -> (bool, ReaderModel)
    decreases j,
{
    if j == 0 {
        (true, m)
    } else {
        let (first, s) = key_calls(m, (j - 1) as nat);
        let (r, s2) = inc_field_spec(s, first);
        (first && r != Ok::<bool, Failure>(true), s2)
    }
}

/// Whether an access is still fresh, and the reader, after `j` calls of
/// `next_element` from a fresh access on `m`.
pub open spec fn element_calls(m: ReaderModel, j: nat) -> (bool, ReaderModel)
    decreases j,
{
    if j == 0 {
        (true, m)
    } else {
        let (first, s) = element_calls(m, (j - 1) as nat);
        let (r, s2) = inc_seq_spec(s, first);
        (first && r != Ok::<bool, Failure>(true), s2)
    }
}

/// Field `k` of the message value that the reader stands on is where the
/// position, extended by `k`, leads.
proof fn lemma_field_resolves(m: ReaderModel, ms: MessageStructure, o: int, k: int)
    requires
        on_message(m, ms, o),
        0 <= k < ms.fields@.len(),
    ensures
        resolve(m.structure, m.pos.push((k as usize, ms.fields.len(), false))) == Some(
            (ms.fields@[k], o),
        ),
{
    let e = (k as usize, ms.fields.len(), false);
    let p = m.pos.push(e);
    if m.pos.len() == 0 {
        assert(p.skip(1) =~= Seq::<Entry>::empty());
    } else {
        assert(p[0] == m.pos[0]);
        assert(p.skip(1) =~= m.pos.skip(1).push(e));
        assert(p.skip(1).drop_last() =~= m.pos.skip(1));
    }
}

/// Advancing within the fields of a message value, at any depth: from
/// field k, wherever the reader pointed after reading it (also inside an
/// unfinished sequence or array of field k), advancing points it at field
/// k + 1 of the same value, at the same offset; advancing from the last
/// field reports that no field is left and returns to the position of the
/// value, where below the top level the reader points exactly as it did
/// before it entered.
pub proof fn law_fields_advance(
    m: ReaderModel,
    ms: MessageStructure,
    o: int,
    k: int,
    c: MessageFieldInfo,
    x: int,
    t: Entry,
)
    requires
        on_message(m, ms, o),
        0 <= k < ms.fields@.len(),
    ensures
        ({
            let here = ReaderModel {
                pos: m.pos.push((k as usize, ms.fields.len(), false)),
                current: c,
                offset: x,
                ..m
            };
            let next = if k + 1 < ms.fields@.len() {
                (Ok::<bool, Failure>(true), at_field(m, ms, o, k + 1))
            } else if m.pos.len() > 0 {
                (Ok::<bool, Failure>(false), m)
            } else {
                (Ok::<bool, Failure>(false), ReaderModel { current: c, offset: x, ..m })
            };
            &&& inc_field_spec(here, false) == next
            &&& t.2 ==> inc_field_spec(here.with_pos(here.pos.push(t)), false) == next
        }),
{
    let l = ms.fields.len();
    let here = ReaderModel {
        pos: m.pos.push((k as usize, l, false)),
        current: c,
        offset: x,
        ..m
    };
    assert(here.with_pos(here.pos.push(t)).pos.drop_last() =~= here.pos);
    assert(here.with_pos(here.pos) == here);
    assert(here.pos.drop_last() =~= m.pos);
    if k + 1 < ms.fields@.len() {
        lemma_field_resolves(m, ms, o, k + 1);
        assert(here.pos.drop_last().push(((k + 1) as usize, l, false)) =~= m.pos.push(
            ((k + 1) as usize, l, false),
        ));
    }
}

/// The reader after `j` calls of `next_key` on a message value of type
/// `ms`: fresh and unmoved before the first call, then at field j - 1.
proof fn lemma_key_calls(m: ReaderModel, ms: MessageStructure, o: int, j: int)
    requires
        on_message(m, ms, o),
        ms.fields@.len() > 0,
        0 <= j <= ms.fields@.len(),
    ensures
        key_calls(m, j as nat) == if j == 0 {
            (true, m)
        } else {
            (false, at_field(m, ms, o, j - 1))
        },
    decreases j,
{
    if j == 1 {
        assert(key_calls(m, 0) == (true, m));
        lemma_field_resolves(m, ms, o, 0);
        if m.pos.len() == 0 {
            assert(m.pos.push((0usize, ms.fields.len(), false)) =~= seq![
                (0usize, m.structure.fields.len(), false),
            ]);
        }
    } else if j > 1 {
        lemma_key_calls(m, ms, o, j - 1);
        let k = j - 2;
        law_fields_advance(m, ms, o, k, ms.fields@[k], o, (0usize, 0usize, false));
    }
}

/// The fields of a message value are visited in declaration order, each
/// once, at any depth: on a value of `l` > 0 fields, the j-th call of
/// `next_key` (j <= l) reports a field and points the reader at field j - 1
/// at the value's offset, and call l + 1 reports that no field is left,
/// with the reader back at the position of the value; below the top level
/// it then points exactly where it did before the first call.
pub proof fn law_fields_traversal(m: ReaderModel, ms: MessageStructure, o: int, j: int)
    requires
        on_message(m, ms, o),
        ms.fields@.len() > 0,
        1 <= j <= ms.fields@.len() + 1,
    ensures
        ({
            let (first, s) = key_calls(m, (j - 1) as nat);
            let (r, s2) = inc_field_spec(s, first);
            &&& j <= ms.fields@.len() ==> r == Ok::<bool, Failure>(true) && s2 == at_field(
                m,
                ms,
                o,
                j - 1,
            )
            &&& j == ms.fields@.len() + 1 ==> r == Ok::<bool, Failure>(false) && s2.pos == m.pos
                && (m.pos.len() > 0 ==> s2 == m)
        }),
{
    lemma_key_calls(m, ms, o, j - 1);
    if j == 1 {
        lemma_key_calls(m, ms, o, 1);
    } else {
        let k = j - 2;
        law_fields_advance(m, ms, o, k, ms.fields@[k], o, (0usize, 0usize, false));
    }
}

/// The reader after `j` calls of `next_element` on a field of `n` > 0
/// elements: fresh and unmoved before the first call, then at index j - 1
/// one level below.
proof fn lemma_element_calls(m: ReaderModel, n: int, j: int)
    requires
        m.current.value_kind != ValueKind::Simple,
        array_len_spec(m) == Ok::<int, Failure>(n),
        0 < n <= usize::MAX,
        0 <= j <= n,
    ensures
        element_calls(m, j as nat) == if j == 0 {
            (true, m)
        } else {
            (false, m.with_pos(m.pos.push(((j - 1) as usize, n as usize, true))))
        },
    decreases j,
{
    if j == 1 {
        assert(element_calls(m, 0) == (true, m));
        law_sequence_round_trip(m, n, 0);
    } else if j > 1 {
        lemma_element_calls(m, n, j - 1);
        law_sequence_round_trip(m, n, j - 2);
    }
}

/// The elements of a sequence or array are visited in order, each once:
/// with `n` elements, the j-th call of `next_element` (j <= n) reports an
/// element and points the reader at index j - 1 one level below where it
/// stood, and call n + 1 reports that none is left and leaves the reader
/// exactly as it was before the first call (with no elements, at once).
pub proof fn law_elements_traversal(m: ReaderModel, n: int, j: int)
    requires
        m.current.value_kind != ValueKind::Simple,
        array_len_spec(m) == Ok::<int, Failure>(n),
        n <= usize::MAX,
        1 <= j <= n + 1,
    ensures
        ({
            let (first, s) = element_calls(m, (j - 1) as nat);
            let (r, s2) = inc_seq_spec(s, first);
            &&& j <= n ==> r == Ok::<bool, Failure>(true) && s2 == m.with_pos(
                m.pos.push(((j - 1) as usize, n as usize, true)),
            )
            &&& j == n + 1 ==> r == Ok::<bool, Failure>(false) && s2 == m
        }),
{
    if n > 0 {
        lemma_element_calls(m, n, j - 1);
        if j == 1 {
            law_sequence_round_trip(m, n, 0);
        } else {
            law_sequence_round_trip(m, n, j - 2);
        }
    }
}

/// Every operation keeps each level's index below its count, and with
/// indices in bounds advancing a sequence never fails.
pub proof fn law_positions_stay_in_bounds(m: ReaderModel, push: bool)
    requires
        pos_in_bounds(m.pos),
        push && m.current.value_kind != ValueKind::Simple ==> array_len_readable(m),
        push && m.pos.len() == 0 ==> m.structure.fields@.len() > 0,
        !push ==> m.pos.len() > 0,
        !push && m.pos.last().2 ==> m.pos.len() > 1,
    ensures
        pos_in_bounds(inc_seq_spec(m, push).1.pos),
        pos_in_bounds(inc_field_spec(m, push).1.pos),
        !push ==> inc_seq_spec(m, false).0 is Ok,
{
    if !push {
        let p = m.pos.drop_last();
        assert forall|i: int| 0 <= i < p.len() implies #[trigger] p[i].0 < p[i].1 by {
            assert(p[i] == m.pos[i]);
        }
        let top = m.pos.last();
        assert(top == m.pos[m.pos.len() - 1]);
        if top.0 + 1 < top.1 {
            let q = p.push(((top.0 + 1) as usize, top.1, top.2));
            assert forall|i: int| 0 <= i < q.len() implies #[trigger] q[i].0 < q[i].1 by {
                if i < p.len() {
                    assert(q[i] == p[i]);
                }
            }
        }
        if m.pos.last().2 {
            let top2 = p.last();
            assert(top2 == p[p.len() - 1]);
            let p2 = p.drop_last();
            assert forall|i: int| 0 <= i < p2.len() implies #[trigger] p2[i].0 < p2[i].1 by {
                assert(p2[i] == p[i]);
            }
            if top2.0 + 1 < top2.1 {
                let q = p2.push(((top2.0 + 1) as usize, top2.1, top2.2));
                assert forall|i: int| 0 <= i < q.len() implies #[trigger] q[i].0 < q[i].1 by {
                    if i < p2.len() {
                        assert(q[i] == p2[i]);
                    }
                }
            }
        } else {
            if top.0 + 1 < top.1 {
                let q = p.push(((top.0 + 1) as usize, top.1, top.2));
                assert forall|i: int| 0 <= i < q.len() implies #[trigger] q[i].0 < q[i].1 by {
                    if i < p.len() {
                        assert(q[i] == p[i]);
                    }
                }
            }
        }
    } else {
        if let Ok(n) = array_len_spec(m) {
            if n > 0 && m.current.value_kind != ValueKind::Simple {
                let q = m.pos.push((0usize, n as usize, true));
                assert forall|i: int| 0 <= i < q.len() implies #[trigger] q[i].0 < q[i].1 by {
                    if i < m.pos.len() {
                        assert(q[i] == m.pos[i]);
                    }
                }
            }
        }
        if m.pos.len() == 0 {
            let q = seq![(0usize, m.structure.fields.len(), false)];
            assert(q[0].0 < q[0].1);
        } else if let BaseType::Message(ms) = m.current.base_type {
            if ms.fields.len() > 0 {
                let q = m.pos.push((0usize, ms.fields.len(), false));
                assert forall|i: int| 0 <= i < q.len() implies #[trigger] q[i].0 < q[i].1 by {
                    if i < m.pos.len() {
                        assert(q[i] == m.pos[i]);
                    }
                }
            }
        }
    }
}

} // verus!
