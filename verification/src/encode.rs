//! The positional-argument encoder: validate an ordered sequence of values
//! against the server's declared argument shape, then serialize it into the
//! wire block `count || (reserved || payload)*`.

use vstd::prelude::*;
use crate::buffer::{buf_bytes, buf_put_u32, buf_reserve, u32_be_bytes};
use crate::descriptors::{Descriptor, DescriptorContext, DescriptorKind, ProtocolVersion,
    ShapeElement};
use crate::errors::{EncodeError, Mismatch};
use crate::names::{name_is_index, parses_to_index};
use crate::query_arg::QueryArg;

verus! {

/// Whether the negotiated protocol era expresses positional arguments with
/// an object-shape descriptor (from 0.12 on) rather than a tuple descriptor.
pub open spec fn object_shape_era(proto: ProtocolVersion) -> bool {
    proto.spec_is_at_least(0, 12)
}

/// The descriptor kind the negotiated era calls for.
pub open spec fn expected_kind(proto: ProtocolVersion) -> DescriptorKind {
    if object_shape_era(proto) {
        DescriptorKind::ObjectShape
    } else {
        DescriptorKind::Tuple
    }
}

/// Element `i` agrees with the object shape: its declared name parses as
/// the decimal index `i`, and the value matches the declared type.
pub open spec fn object_elem_ok<T: QueryArg>(
    args: Seq<T>,
    elems: Seq<ShapeElement>,
    ctx: DescriptorContext,
    i: int,
) -> bool {
    &&& parses_to_index(elems[i].name@, i)
    &&& args[i].type_matches(ctx, elems[i].type_pos)
}

/// Every element before `i` agrees with the object shape.
pub open spec fn object_prefix_ok<T: QueryArg>(
    args: Seq<T>,
    elems: Seq<ShapeElement>,
    ctx: DescriptorContext,
    i: int,
) -> bool {
    forall|j: int| 0 <= j < i ==> object_elem_ok(args, elems, ctx, j)
}

/// Value `i` matches the type position the tuple descriptor pairs it with.
pub open spec fn tuple_elem_ok<T: QueryArg>(
    args: Seq<T>,
    types: Seq<u16>,
    ctx: DescriptorContext,
    i: int,
) -> bool {
    args[i].type_matches(ctx, types[i])
}

/// Every value before `i` matches its paired tuple type position.
pub open spec fn tuple_prefix_ok<T: QueryArg>(
    args: Seq<T>,
    types: Seq<u16>,
    ctx: DescriptorContext,
    i: int,
) -> bool {
    forall|j: int| 0 <= j < i ==> tuple_elem_ok(args, types, ctx, j)
}

/// The arguments agree with the root descriptor the context resolves:
/// a root position is present, it resolves, the descriptor is of the kind
/// the era calls for, the counts are equal, and every element agrees.
pub open spec fn args_match<T: QueryArg>(args: Seq<T>, ctx: DescriptorContext) -> bool {
    match ctx.root_pos {
        Option::None => false,
        Option::Some(p) => {
            &&& (p as int) < ctx.descriptors@.len()
            &&& match ctx.descriptors@[p as int] {
                Descriptor::ObjectShape(shape) => {
                    &&& object_shape_era(ctx.proto)
                    &&& shape.elements@.len() == args.len()
                    &&& object_prefix_ok(args, shape.elements@, ctx, args.len() as int)
                },
                Descriptor::Tuple(tuple) => {
                    &&& !object_shape_era(ctx.proto)
                    &&& tuple.element_types@.len() == args.len()
                    &&& tuple_prefix_ok(args, tuple.element_types@, ctx, args.len() as int)
                },
                _ => false,
            }
        },
    }
}

/// The serialized element slots, in order: each one a four-byte reserved
/// field fixed at zero, then the value's own length-prefixed payload.
pub open spec fn slots_bytes<T: QueryArg>(args: Seq<T>) -> Seq<u8>
    decreases args.len(),
{
    if args.len() == 0 {
        Seq::empty()
    } else {
        slots_bytes(args.drop_last()) + u32_be_bytes(0) + args.last().payload()
    }
}

/// The whole argument block: a four-byte element count, then the slots.
pub open spec fn arg_block_bytes<T: QueryArg>(args: Seq<T>) -> Seq<u8> {
    u32_be_bytes(args.len() as u32) + slots_bytes(args)
}

/// `r` is the descriptor-mismatch report for arguments supplied while the
/// server expects none.
pub open spec fn is_no_args_err(r: Result<(), EncodeError>, provided: int) -> bool {
    match r {
        Result::Err(
            EncodeError::DescriptorMismatch(Mismatch::NoArgumentsExpected { provided: p }),
        ) => p == provided,
        _ => false,
    }
}

/// `r` passes a registry lookup failure at `pos` through.
pub open spec fn is_lookup_err(r: Result<(), EncodeError>, pos: u16) -> bool {
    match r {
        Result::Err(EncodeError::LookupFailed { position }) => position == pos,
        _ => false,
    }
}

/// `r` is the wrong-type report naming the kind found and the kind the era
/// expected.
pub open spec fn is_wrong_type_err(
    r: Result<(), EncodeError>,
    found: DescriptorKind,
    expected: DescriptorKind,
) -> bool {
    match r {
        Result::Err(EncodeError::WrongType { found: f, expected: e }) => f == found && e
            == expected,
        _ => false,
    }
}

/// `r` is the field-count report carrying both counts.
pub open spec fn is_field_count_err(
    r: Result<(), EncodeError>,
    expected: int,
    actual: int,
) -> bool {
    match r {
        Result::Err(EncodeError::FieldCountMismatch { expected: e, actual: a }) => e == expected
            && a == actual,
        _ => false,
    }
}

/// `r` is the descriptor-mismatch report naming the index expected and the
/// name actually declared there.
pub open spec fn is_wrong_name_err(r: Result<(), EncodeError>, index: int, name: Seq<char>) -> bool {
    match r {
        Result::Err(
            EncodeError::DescriptorMismatch(Mismatch::WrongElementName { index: ix, name: n }),
        ) => ix == index && n@ == name,
        _ => false,
    }
}

/// With equal counts under the object branch: where every earlier element
/// agrees and the name at `i` does not parse as `i`, the wrong-name report
/// names `i` and that name; where instead the value's type disagrees, some
/// error is reported (the value's own, passed through).
pub open spec fn object_failures_reported<T: QueryArg>(
    args: Seq<T>,
    elems: Seq<ShapeElement>,
    ctx: DescriptorContext,
    r: Result<(), EncodeError>,
) -> bool {
    forall|i: int|
        0 <= i < args.len() && #[trigger] object_prefix_ok(args, elems, ctx, i) ==> {
            &&& !parses_to_index(elems[i].name@, i) ==> is_wrong_name_err(r, i, elems[i].name@)
            &&& parses_to_index(elems[i].name@, i) && !args[i].type_matches(
                ctx,
                elems[i].type_pos,
            ) ==> r is Err
        }
}

/// With equal counts under the tuple branch: where every earlier value
/// agrees and the one at `i` does not, some error is reported (the value's
/// own, passed through).
pub open spec fn tuple_failures_reported<T: QueryArg>(
    args: Seq<T>,
    types: Seq<u16>,
    ctx: DescriptorContext,
    r: Result<(), EncodeError>,
) -> bool {
    forall|i: int|
        0 <= i < args.len() && #[trigger] tuple_prefix_ok(args, types, ctx, i) && !args[i]
            .type_matches(ctx, types[i]) ==> r is Err
}

/// Which report each failing validation yields, in the order the encoder
/// runs the checks: no root position, then lookup, then descriptor kind,
/// then count, then the per-element checks. Holds vacuously of a call
/// whose validations all pass.
pub open spec fn failure_reported<T: QueryArg>(
    args: Seq<T>,
    ctx: DescriptorContext,
    r: Result<(), EncodeError>,
) -> bool {
    match ctx.root_pos {
        Option::None => is_no_args_err(r, args.len() as int),
        Option::Some(p) => {
            if p as int >= ctx.descriptors@.len() {
                is_lookup_err(r, p)
            } else {
                let d = ctx.descriptors@[p as int];
                if d.spec_kind() != expected_kind(ctx.proto) {
                    is_wrong_type_err(r, d.spec_kind(), expected_kind(ctx.proto))
                } else {
                    match d {
                        Descriptor::ObjectShape(shape) => {
                            if shape.elements@.len() != args.len() {
                                is_field_count_err(
                                    r,
                                    shape.elements@.len() as int,
                                    args.len() as int,
                                )
                            } else {
                                object_failures_reported(args, shape.elements@, ctx, r)
                            }
                        },
                        Descriptor::Tuple(tuple) => {
                            if tuple.element_types@.len() != args.len() {
                                is_field_count_err(
                                    r,
                                    tuple.element_types@.len() as int,
                                    args.len() as int,
                                )
                            } else {
                                tuple_failures_reported(args, tuple.element_types@, ctx, r)
                            }
                        },
                        _ => true,
                    }
                }
            }
        },
    }
}

proof fn lemma_slots_bytes_take_succ<T: QueryArg>(args: Seq<T>, i: int)
    requires
        0 <= i < args.len(),
    ensures
        slots_bytes(args.take(i + 1)) == slots_bytes(args.take(i)) + u32_be_bytes(0)
            + args[i].payload(),
{
    assert(args.take(i + 1).drop_last() =~= args.take(i));
    assert(args.take(i + 1).last() == args[i]);
}

proof fn lemma_slots_bytes_take_le<T: QueryArg>(args: Seq<T>, i: int)
    requires
        0 <= i <= args.len(),
    ensures
        slots_bytes(args.take(i)).len() <= slots_bytes(args).len(),
    decreases args.len() - i,
{
    if i == args.len() {
        assert(args.take(i) =~= args);
    } else {
        lemma_slots_bytes_take_succ(args, i);
        lemma_slots_bytes_take_le(args, i + 1);
    }
}

proof fn lemma_slots_bytes_min_len<T: QueryArg>(args: Seq<T>)
    ensures
        slots_bytes(args).len() >= 8 * args.len(),
    decreases args.len(),
{
    if args.len() > 0 {
        lemma_slots_bytes_min_len(args.drop_last());
        args.last().payload_is_prefixed();
    }
}

/// Once every validation passes, every failure report holds vacuously,
/// whatever `r` is.
proof fn lemma_match_reported<T: QueryArg>(
    args: Seq<T>,
    ctx: DescriptorContext,
    r: Result<(), EncodeError>,
)
    requires
        args_match(args, ctx),
    ensures
        failure_reported(args, ctx, r),
{
    match ctx.root_pos {
        Option::None => {},
        Option::Some(p) => {
            match ctx.descriptors@[p as int] {
                Descriptor::ObjectShape(shape) => {
                    assert forall|i: int|
                        0 <= i < args.len() && #[trigger] object_prefix_ok(
                            args,
                            shape.elements@,
                            ctx,
                            i,
                        ) implies {
                        &&& !parses_to_index(shape.elements@[i].name@, i) ==> is_wrong_name_err(
                            r,
                            i,
                            shape.elements@[i].name@,
                        )
                        &&& parses_to_index(shape.elements@[i].name@, i) && !args[i].type_matches(
                            ctx,
                            shape.elements@[i].type_pos,
                        ) ==> r is Err
                    } by {
                        assert(object_elem_ok(args, shape.elements@, ctx, i));
                    }
                },
                Descriptor::Tuple(tuple) => {
                    assert forall|i: int|
                        0 <= i < args.len() && #[trigger] tuple_prefix_ok(
                            args,
                            tuple.element_types@,
                            ctx,
                            i,
                        ) implies args[i].type_matches(ctx, tuple.element_types@[i]) by {
                        assert(tuple_elem_ok(args, tuple.element_types@, ctx, i));
                    }
                },
                _ => {},
            }
        },
    }
}

/// Encode the ordered sequence `args` as the query's positional arguments.
///
/// The root descriptor is resolved from the context, the negotiated era
/// picks the descriptor kind expected, the counts and the per-element
/// agreement are checked, and only then is the block
/// `count || (reserved || payload)*` appended to the buffer. A validation
/// failure reports its error and leaves the buffer untouched.
pub fn encode<T: QueryArg>(
    args: &Vec<T>,
    ctx: &DescriptorContext,
    buf: &mut bytes::BytesMut,
) -> (r: Result<(), EncodeError>)
    requires
        args@.len() <= u32::MAX,
        buf_bytes(*old(buf)).len() + 4 + slots_bytes(args@).len() <= isize::MAX,
    ensures
        r is Ok <==> args_match(args@, *ctx) && (forall|i: int|
            0 <= i < args@.len() ==> args@[i].encodable()),
        r is Ok ==> buf_bytes(*final(buf)) == buf_bytes(*old(buf)) + arg_block_bytes(args@),
        !args_match(args@, *ctx) ==> buf_bytes(*final(buf)) == buf_bytes(*old(buf)),
        failure_reported(args@, *ctx, r),
{
    let count = args.len();
    let root_pos: u16 = match ctx.root_pos {
        Option::Some(p) => p,
        Option::None => {
            return Err(
                EncodeError::DescriptorMismatch(Mismatch::NoArgumentsExpected { provided: count }),
            );
        },
    };
    let desc = match ctx.get(root_pos) {
        Ok(d) => d,
        Err(e) => {
            return Err(e);
        },
    };
    let new_era = ctx.proto.is_at_least(0, 12);
    if new_era {
        match desc {
            Descriptor::ObjectShape(shape) => {
                if shape.elements.len() != count {
                    return Err(
                        EncodeError::FieldCountMismatch {
                            expected: shape.elements.len(),
                            actual: count,
                        },
                    );
                }
                let ghost elems = shape.elements@;
                let mut i: usize = 0;
                while i < count
                    invariant
                        0 <= i <= count,
                        count == args@.len(),
                        elems.len() == count,
                        elems == shape.elements@,
                        ctx.root_pos == Some(root_pos),
                        (root_pos as int) < ctx.descriptors@.len(),
                        ctx.descriptors@[root_pos as int] == Descriptor::ObjectShape(*shape),
                        object_shape_era(ctx.proto),
                        object_prefix_ok(args@, elems, *ctx, i as int),
                        *buf == *old(buf),
                    decreases count - i,
                {
                    let el = &shape.elements[i];
                    if !name_is_index(el.name.as_str(), i) {
                        let e = EncodeError::DescriptorMismatch(
                            Mismatch::WrongElementName { index: i, name: el.name.clone() },
                        );
                        proof {
                            let r2 = Result::<(), EncodeError>::Err(e);
                            assert forall|i2: int|
                                0 <= i2 < args@.len() && #[trigger] object_prefix_ok(
                                    args@,
                                    elems,
                                    *ctx,
                                    i2,
                                ) && !parses_to_index(elems[i2].name@, i2) implies is_wrong_name_err(
                                r2,
                                i2,
                                elems[i2].name@,
                            ) by {
                                if i2 < i as int {
                                    assert(object_elem_ok(args@, elems, *ctx, i2));
                                }
                                if i2 > i as int {
                                    assert(object_elem_ok(args@, elems, *ctx, i as int));
                                }
                            }
                            assert(object_failures_reported(args@, elems, *ctx, r2));
                            assert(!args_match(args@, *ctx)) by {
                                if args_match(args@, *ctx) {
                                    assert(object_elem_ok(args@, elems, *ctx, i as int));
                                }
                            }
                        }
                        return Err(e);
                    }
                    match args[i].check_descriptor(ctx, el.type_pos) {
                        Ok(()) => {},
                        Err(e) => {
                            proof {
                                let r2 = Result::<(), EncodeError>::Err(e);
                                assert forall|i2: int|
                                    0 <= i2 < args@.len() && #[trigger] object_prefix_ok(
                                        args@,
                                        elems,
                                        *ctx,
                                        i2,
                                    ) && !parses_to_index(elems[i2].name@, i2) implies false by {
                                    if i2 < i as int {
                                        assert(object_elem_ok(args@, elems, *ctx, i2));
                                    }
                                    if i2 > i as int {
                                        assert(object_elem_ok(args@, elems, *ctx, i as int));
                                    }
                                }
                                assert(object_failures_reported(args@, elems, *ctx, r2));
                                assert(!args_match(args@, *ctx)) by {
                                    if args_match(args@, *ctx) {
                                        assert(object_elem_ok(args@, elems, *ctx, i as int));
                                    }
                                }
                            }
                            return Err(e);
                        },
                    }
                    i += 1;
                }
            },
            _ => {
                return Err(
                    EncodeError::WrongType {
                        found: desc.kind(),
                        expected: DescriptorKind::ObjectShape,
                    },
                );
            },
        }
    } else {
        match desc {
            Descriptor::Tuple(tuple) => {
                if tuple.element_types.len() != count {
                    return Err(
                        EncodeError::FieldCountMismatch {
                            expected: tuple.element_types.len(),
                            actual: count,
                        },
                    );
                }
                let ghost types = tuple.element_types@;
                let mut i: usize = 0;
                while i < count
                    invariant
                        0 <= i <= count,
                        count == args@.len(),
                        types.len() == count,
                        types == tuple.element_types@,
                        ctx.root_pos == Some(root_pos),
                        (root_pos as int) < ctx.descriptors@.len(),
                        ctx.descriptors@[root_pos as int] == Descriptor::Tuple(*tuple),
                        !object_shape_era(ctx.proto),
                        tuple_prefix_ok(args@, types, *ctx, i as int),
                        *buf == *old(buf),
                    decreases count - i,
                {
                    let type_pos = tuple.element_types[i];
                    match args[i].check_descriptor(ctx, type_pos) {
                        Ok(()) => {},
                        Err(e) => {
                            proof {
                                assert(!args_match(args@, *ctx)) by {
                                    if args_match(args@, *ctx) {
                                        assert(tuple_elem_ok(args@, types, *ctx, i as int));
                                    }
                                }
                            }
                            return Err(e);
                        },
                    }
                    i += 1;
                }
            },
            _ => {
                return Err(
                    EncodeError::WrongType { found: desc.kind(), expected: DescriptorKind::Tuple },
                );
            },
        }
    }
    // All validations passed; only now is the first byte appended.
    proof {
        assert(args_match(args@, *ctx));
        lemma_slots_bytes_min_len(args@);
    }
    buf_reserve(buf, 4 + 8 * count);
    buf_put_u32(buf, count as u32);
    let mut i: usize = 0;
    while i < count
        invariant
            0 <= i <= count,
            count == args@.len(),
            count <= u32::MAX,
            args_match(args@, *ctx),
            buf_bytes(*old(buf)).len() + 4 + slots_bytes(args@).len() <= isize::MAX,
            buf_bytes(*buf) == buf_bytes(*old(buf)) + u32_be_bytes(count as u32) + slots_bytes(
                args@.take(i as int),
            ),
            forall|j: int| 0 <= j < i ==> #[trigger] args@[j].encodable(),
        decreases count - i,
    {
        proof {
            lemma_slots_bytes_take_succ(args@, i as int);
            lemma_slots_bytes_take_le(args@, i as int + 1);
        }
        buf_put_u32(buf, 0);
        let x = &args[i];
        match x.encode_slot(buf) {
            Ok(()) => {},
            Err(e) => {
                // The value itself cannot be serialized; the slots already
                // written stay, as the caller discards the buffer.
                proof {
                    lemma_match_reported(args@, *ctx, Result::<(), EncodeError>::Err(e));
                }
                return Err(e);
            },
        }
        proof {
            assert(buf_bytes(*buf) == buf_bytes(*old(buf)) + u32_be_bytes(count as u32)
                + slots_bytes(args@.take(i as int + 1)));
        }
        i += 1;
    }
    proof {
        assert(args@.take(count as int) =~= args@);
        assert(buf_bytes(*buf) == buf_bytes(*old(buf)) + arg_block_bytes(args@));
        lemma_match_reported(args@, *ctx, Result::<(), EncodeError>::Ok(()));
    }
    Ok(())
}

} // verus!
