//! The bodies of the requests a client sends: struct PODs of plain values.
//!
//! Which object and method a body goes to, and the sending itself, belong
//! to the connection.

use vstd::bytes::*;
use vstd::prelude::*;

use super::id::{LocalId, PortId};
use super::parameters::{flags_of, values_of, ParamEntry, Parameters};
use super::ports::PortParam;
use super::properties::Properties;
use crate::bytes::{append_zeros, zeros, BytesInhabited};
use crate::error::{Error, ErrorKind};
use crate::pod::field::{header, le32, pad8};
use crate::pod::ty::{FRACTION, ID, INT, LONG, STRING, STRUCT};
use crate::buf::dynamic_buf::DynamicBuf;
use crate::pod::field::{
    encode_fields, encode_struct, field_fits, fields_fit, lemma_encode_field_len,
    models, Field, FieldModel,
};
use crate::pod::write::write_struct;

verus! {

/// Whether a field holds one plain value of four or eight bytes.
pub open spec fn is_scalar(f: FieldModel) -> bool {
    match f {
        FieldModel::Bool(_) | FieldModel::Id(_) | FieldModel::Int(_) | FieldModel::Long(_) => true,
        _ => false,
    }
}

/// Plain values take sixteen bytes each: a header and a padded body.
proof fn lemma_scalars_len(fs: Seq<FieldModel>)
    requires
        forall|i: int| 0 <= i < fs.len() ==> #[trigger] is_scalar(fs[i]),
    ensures
        encode_fields(fs).len() == 16 * fs.len(),
        forall|i: int| 0 <= i < fs.len() ==> #[trigger] field_fits(fs[i]),
    decreases fs.len(),
{
    if fs.len() > 0 {
        let rest = fs.drop_first();
        assert forall|i: int| 0 <= i < rest.len() implies #[trigger] is_scalar(rest[i]) by {
            assert(rest[i] == fs[i + 1]);
        }
        lemma_scalars_len(rest);
        assert(is_scalar(fs[0]));
        lemma_encode_field_len(fs[0]);
        assert forall|i: int| 0 <= i < fs.len() implies #[trigger] field_fits(fs[i]) by {
            if i > 0 {
                assert(fs[i] == rest[i - 1]);
            }
        }
    }
}

/// The bytes of a struct POD holding a few plain values.
fn struct_body(fields: &[Field]) -> (r: Vec<u8>)
    requires
        fields@.len() <= 8,
        forall|i: int| 0 <= i < fields@.len() ==> #[trigger] is_scalar(fields@[i]@),
    ensures
        r@ == encode_struct(models(fields@)),
{
    let ghost fs = models(fields@);
    proof {
        assert forall|i: int| 0 <= i < fs.len() implies #[trigger] is_scalar(fs[i]) by {
            assert(fs[i] == fields@[i]@);
        }
        lemma_scalars_len(fs);
        lemma_auto_spec_u32_to_from_le_bytes();
        assert(fields_fit(fs));
        assert(encode_struct(fs).len() == 8 + 16 * fs.len());
    }
    let mut buf = DynamicBuf::new();
    let r = write_struct(&mut buf, fields);
    proof {
        assert(r is Ok);
    }
    vstd::slice::slice_to_vec(buf.as_bytes())
}

/// The port update carries new parameters.
pub const PORT_UPDATE_PARAMS: u32 = 1;
/// The port update carries new port information.
pub const PORT_UPDATE_INFO: u32 = 2;
/// The port information carries its flags.
pub const PORT_CHANGE_FLAGS: u64 = 1;
/// The port information carries its properties.
pub const PORT_CHANGE_PROPS: u64 = 4;
/// The port information carries the flags of its parameters.
pub const PORT_CHANGE_PARAMS: u64 = 8;

/// The node update carries new parameters.
pub const NODE_UPDATE_PARAMS: u32 = 1;
/// The node update carries new node information.
pub const NODE_UPDATE_INFO: u32 = 2;
/// The node information carries its flags.
pub const NODE_CHANGE_FLAGS: u64 = 1;
/// The node information carries its properties.
pub const NODE_CHANGE_PROPS: u64 = 2;
/// The node information carries the flags of its parameters.
pub const NODE_CHANGE_PARAMS: u64 = 4;
/// The node can have input ports added.
pub const NODE_IN_DYNAMIC_PORTS: u64 = 2;
/// The node can have output ports added.
pub const NODE_OUT_DYNAMIC_PORTS: u64 = 4;

/// An integer POD.
pub open spec fn int_pod(v: u32) -> Seq<u8> {
    header(4, INT) + le32(v) + le32(0)
}

/// An identifier POD.
pub open spec fn id_pod(v: u32) -> Seq<u8> {
    header(4, ID) + le32(v) + le32(0)
}

/// A long integer POD.
pub open spec fn long_pod(v: u64) -> Seq<u8> {
    header(8, LONG) + spec_u64_to_le_bytes(v)
}

/// A fraction POD.
pub open spec fn fraction_pod(num: u32, denom: u32) -> Seq<u8> {
    header(8, FRACTION) + le32(num) + le32(denom)
}

/// A string POD: the bytes of the string and a terminating zero, padded.
pub open spec fn string_pod(s: Seq<u8>) -> Seq<u8> {
    header((s.len() + 1) as u32, STRING) + s + seq![0u8] + zeros(pad8(s.len() + 1))
}

/// An encoded POD placed as a field, padded.
pub open spec fn raw_pod(b: Seq<u8>) -> Seq<u8> {
    b + zeros(pad8(b.len()))
}

/// A struct POD around the encoded fields `body`.
pub open spec fn struct_pod(body: Seq<u8>) -> Seq<u8> {
    header(body.len() as u32, STRUCT) + body
}

/// Each property as its key and its value.
pub open spec fn props_pods(ps: Seq<(Seq<u8>, Seq<u8>)>) -> Seq<u8>
    decreases ps.len(),
{
    if ps.len() == 0 {
        Seq::empty()
    } else {
        props_pods(ps.drop_last()) + string_pod(ps.last().0) + string_pod(ps.last().1)
    }
}

/// Each value of a parameter as its encoded POD.
pub open spec fn values_pods(vs: Seq<PortParam>) -> Seq<u8>
    decreases vs.len(),
{
    if vs.len() == 0 {
        Seq::empty()
    } else {
        values_pods(vs.drop_last()) + raw_pod(vs.last().value@)
    }
}

/// The values of the parameters `ids`, one parameter after the other.
pub open spec fn params_pods(ids: Seq<u32>, m: Map<u32, ParamEntry>) -> Seq<u8>
    decreases ids.len(),
{
    if ids.len() == 0 {
        Seq::empty()
    } else {
        params_pods(ids.drop_last(), m) + values_pods(values_of(m, ids.last()))
    }
}

/// The number of values of the parameters `ids`.
pub open spec fn params_count(ids: Seq<u32>, m: Map<u32, ParamEntry>) -> nat
    decreases ids.len(),
{
    if ids.len() == 0 {
        0
    } else {
        params_count(ids.drop_last(), m) + values_of(m, ids.last()).len()
    }
}

/// Each parameter of `ids` as its identifier and its flags.
pub open spec fn flags_pods(ids: Seq<u32>, m: Map<u32, ParamEntry>) -> Seq<u8>
    decreases ids.len(),
{
    if ids.len() == 0 {
        Seq::empty()
    } else {
        flags_pods(ids.drop_last(), m) + id_pod(ids.last()) + int_pod(flags_of(m, ids.last()))
    }
}

/// Whether `ids` are the parameters of `m` in increasing order.
pub open spec fn in_order(ids: Seq<u32>, m: Map<u32, ParamEntry>) -> bool {
    &&& ids.to_set() == m.dom()
    &&& forall|i: int, j: int| 0 <= i < j < ids.len() ==> ids[i] < ids[j]
}

/// What a port update asks for: parameters when there are any, and always
/// the port information.
pub open spec fn port_update_mask(ids: Seq<u32>) -> u32 {
    if ids.len() > 0 {
        PORT_UPDATE_PARAMS | PORT_UPDATE_INFO
    } else {
        PORT_UPDATE_INFO
    }
}

/// What the port information of an update holds: its flags, and the
/// properties and the parameter flags where they changed.
pub open spec fn port_change_mask(props_modified: bool, params_modified: bool) -> u64 {
    PORT_CHANGE_FLAGS | (if props_modified {
        PORT_CHANGE_PROPS
    } else {
        0
    }) | (if params_modified {
        PORT_CHANGE_PARAMS
    } else {
        0
    })
}

/// The port information of an update: its change mask, no port flags, no
/// rate, then the properties and the flags of the parameters where they
/// changed, else a count of zero for each.
pub open spec fn port_info(
    props: Seq<(Seq<u8>, Seq<u8>)>,
    ids: Seq<u32>,
    m: Map<u32, ParamEntry>,
    props_modified: bool,
    params_modified: bool,
) -> Seq<u8> {
    long_pod(port_change_mask(props_modified, params_modified)) + long_pod(0) + fraction_pod(0, 0)
        + (if props_modified {
        int_pod(props.len() as u32) + props_pods(props)
    } else {
        int_pod(0)
    }) + (if params_modified {
        int_pod(ids.len() as u32) + flags_pods(ids, m)
    } else {
        int_pod(0)
    })
}

/// The fields of a port update: the direction and the port, what it asks
/// for, the number of parameter values and the values, then the port
/// information as a struct.
pub open spec fn port_update_body(
    direction: u32,
    port_id: u32,
    props: Seq<(Seq<u8>, Seq<u8>)>,
    ids: Seq<u32>,
    m: Map<u32, ParamEntry>,
    props_modified: bool,
    params_modified: bool,
) -> Seq<u8> {
    int_pod(direction) + int_pod(port_id) + int_pod(port_update_mask(ids)) + int_pod(
        (params_count(ids, m) % 0x1_0000_0000) as u32,
    ) + params_pods(ids, m) + struct_pod(port_info(props, ids, m, props_modified, params_modified))
}

/// What the node information of an update holds: its flags, the
/// properties where they changed, and the flags of the parameters where
/// there are any.
pub open spec fn node_change_mask(props_modified: bool, ids: Seq<u32>) -> u64 {
    NODE_CHANGE_FLAGS | (if props_modified {
        NODE_CHANGE_PROPS
    } else {
        0
    }) | (if ids.len() > 0 {
        NODE_CHANGE_PARAMS
    } else {
        0
    })
}

/// The change mask of a node update always has the FLAGS bit, has the
/// PROPS bit exactly when the properties changed and the PARAMS bit exactly
/// when the node has parameters.
pub proof fn lemma_node_change_mask(props_modified: bool, ids: Seq<u32>)
    ensures
        node_change_mask(props_modified, ids) & 1u64 == 1u64,
        (node_change_mask(props_modified, ids) & 2u64 != 0) == props_modified,
        (node_change_mask(props_modified, ids) & 4u64 != 0) == (ids.len() > 0),
        node_change_mask(props_modified, ids) & !7u64 == 0,
{
    let a: u64 = if props_modified {
        2
    } else {
        0
    };
    let b: u64 = if ids.len() > 0 {
        4
    } else {
        0
    };
    assert(node_change_mask(props_modified, ids) == 1u64 | a | b);
    assert(((1u64 | a | b) & 1u64 == 1u64) && ((1u64 | a | b) & !7u64 == 0)) by (bit_vector)
        requires
            a == 0 || a == 2,
            b == 0 || b == 4,
    ;
    assert(((1u64 | a | b) & 2u64 != 0) == (a == 2)) by (bit_vector)
        requires
            a == 0 || a == 2,
            b == 0 || b == 4,
    ;
    assert(((1u64 | a | b) & 4u64 != 0) == (b == 4)) by (bit_vector)
        requires
            a == 0 || a == 2,
            b == 0 || b == 4,
    ;
}

/// The change mask of a port's information always has the FLAGS bit, has
/// the PROPS bit exactly when the properties changed and the PARAMS bit
/// exactly when the parameters changed.
pub proof fn lemma_port_change_mask(props_modified: bool, params_modified: bool)
    ensures
        port_change_mask(props_modified, params_modified) & 1u64 == 1u64,
        (port_change_mask(props_modified, params_modified) & 4u64 != 0) == props_modified,
        (port_change_mask(props_modified, params_modified) & 8u64 != 0) == params_modified,
        port_change_mask(props_modified, params_modified) & !13u64 == 0,
{
    let a: u64 = if props_modified {
        4
    } else {
        0
    };
    let b: u64 = if params_modified {
        8
    } else {
        0
    };
    assert(port_change_mask(props_modified, params_modified) == 1u64 | a | b);
    assert(((1u64 | a | b) & 1u64 == 1u64) && ((1u64 | a | b) & !13u64 == 0)) by (bit_vector)
        requires
            a == 0 || a == 4,
            b == 0 || b == 8,
    ;
    assert(((1u64 | a | b) & 4u64 != 0) == (a == 4)) by (bit_vector)
        requires
            a == 0 || a == 4,
            b == 0 || b == 8,
    ;
    assert(((1u64 | a | b) & 8u64 != 0) == (b == 8)) by (bit_vector)
        requires
            a == 0 || a == 4,
            b == 0 || b == 8,
    ;
}

/// A port update asks for the port information always, and for the
/// parameters exactly when the port has some.
pub proof fn lemma_port_update_mask(ids: Seq<u32>)
    ensures
        port_update_mask(ids) & 2u32 == 2u32,
        (port_update_mask(ids) & 1u32 != 0) == (ids.len() > 0),
{
    assert((1u32 | 2u32) == 3u32) by (bit_vector);
    assert(3u32 & 2u32 == 2u32 && 2u32 & 2u32 == 2u32 && 3u32 & 1u32 != 0 && 2u32 & 1u32 == 0)
        by (bit_vector);
    if ids.len() > 0 {
        assert(port_update_mask(ids) == 3u32);
    } else {
        assert(port_update_mask(ids) == 2u32);
    }
}

/// The node information of an update: the most input and output ports,
/// what it holds, the node's flags, the properties where they changed
/// (else a count of zero), and the flags of every parameter.
pub open spec fn node_info(
    max_input_ports: u32,
    max_output_ports: u32,
    props: Seq<(Seq<u8>, Seq<u8>)>,
    ids: Seq<u32>,
    m: Map<u32, ParamEntry>,
    props_modified: bool,
) -> Seq<u8> {
    int_pod(max_input_ports) + int_pod(max_output_ports) + long_pod(
        node_change_mask(props_modified, ids),
    ) + long_pod(NODE_IN_DYNAMIC_PORTS | NODE_OUT_DYNAMIC_PORTS) + (if props_modified {
        int_pod(props.len() as u32) + props_pods(props)
    } else {
        int_pod(0)
    }) + int_pod(ids.len() as u32) + flags_pods(ids, m)
}

/// The fields of a node update: what it asks for (parameters and
/// information), the number of parameter values and the values, then the
/// node information as a struct.
pub open spec fn node_update_body(
    max_input_ports: u32,
    max_output_ports: u32,
    props: Seq<(Seq<u8>, Seq<u8>)>,
    ids: Seq<u32>,
    m: Map<u32, ParamEntry>,
    props_modified: bool,
) -> Seq<u8> {
    int_pod(NODE_UPDATE_PARAMS | NODE_UPDATE_INFO) + int_pod(
        (params_count(ids, m) % 0x1_0000_0000) as u32,
    ) + params_pods(ids, m) + struct_pod(
        node_info(max_input_ports, max_output_ports, props, ids, m, props_modified),
    )
}

/// Append an integer POD.
fn push_int(out: &mut Vec<u8>, v: u32)
    ensures
        final(out)@ == old(out)@ + int_pod(v),
{
    4u32.append_le_bytes(out);
    INT.append_le_bytes(out);
    v.append_le_bytes(out);
    0u32.append_le_bytes(out);
    assert(out@ =~= old(out)@ + int_pod(v));
}

/// Append an identifier POD.
fn push_id(out: &mut Vec<u8>, v: u32)
    ensures
        final(out)@ == old(out)@ + id_pod(v),
{
    4u32.append_le_bytes(out);
    ID.append_le_bytes(out);
    v.append_le_bytes(out);
    0u32.append_le_bytes(out);
    assert(out@ =~= old(out)@ + id_pod(v));
}

/// Append a long integer POD.
fn push_long(out: &mut Vec<u8>, v: u64)
    ensures
        final(out)@ == old(out)@ + long_pod(v),
{
    8u32.append_le_bytes(out);
    LONG.append_le_bytes(out);
    v.append_le_bytes(out);
    assert(out@ =~= old(out)@ + long_pod(v));
}

/// Append a fraction POD.
fn push_fraction(out: &mut Vec<u8>, num: u32, denom: u32)
    ensures
        final(out)@ == old(out)@ + fraction_pod(num, denom),
{
    8u32.append_le_bytes(out);
    FRACTION.append_le_bytes(out);
    num.append_le_bytes(out);
    denom.append_le_bytes(out);
    assert(out@ =~= old(out)@ + fraction_pod(num, denom));
}

/// The padding after `n` bytes.
fn pad_of(n: usize) -> (r: usize)
    ensures
        r == pad8(n as nat),
        r < 8,
{
    if n % 8 == 0 {
        0
    } else {
        8 - n % 8
    }
}

/// Append bytes one by one.
fn push_bytes(out: &mut Vec<u8>, b: &[u8])
    ensures
        final(out)@ == old(out)@ + b@,
{
    let ghost start = out@;
    let mut i: usize = 0;
    while i < b.len()
        invariant
            0 <= i <= b@.len(),
            out@ == start + b@.take(i as int),
        decreases b@.len() - i,
    {
        out.push(b[i]);
        assert(b@.take(i + 1) =~= b@.take(i as int).push(b@[i as int]));
        i = i + 1;
    }
    assert(b@.take(i as int) =~= b@);
}

/// Append an encoded POD as a field, padded.
fn push_raw(out: &mut Vec<u8>, b: &[u8])
    ensures
        final(out)@ == old(out)@ + raw_pod(b@),
{
    push_bytes(out, b);
    append_zeros(out, pad_of(b.len()));
    assert(out@ =~= old(out)@ + raw_pod(b@));
}

/// Append a string POD.
fn push_string(out: &mut Vec<u8>, s: &[u8])
    ensures
        final(out)@ == old(out)@ + string_pod(s@),
{
    let x: u64 = s.len() as u64;
    let low: u64 = x % 0x1_0000_0000;
    let size: u32 = if low == 0xffff_ffff {
        0
    } else {
        (low + 1) as u32
    };
    assert(size == (x + 1) as u32) by (bit_vector)
        requires
            low == x % 0x1_0000_0000,
            size == (if low == 0xffff_ffff {
                0u32
            } else {
                (low + 1) as u32
            }),
    ;
    size.append_le_bytes(out);
    STRING.append_le_bytes(out);
    push_bytes(out, s);
    out.push(0u8);
    let pad: usize = if (s.len() % 8) == 7 {
        0
    } else {
        7 - s.len() % 8
    };
    assert(pad == pad8(s@.len() + 1));
    append_zeros(out, pad);
    assert(out@ =~= old(out)@ + string_pod(s@));
}

/// Append a struct POD around `body`.
fn push_struct(out: &mut Vec<u8>, body: &[u8])
    requires
        body@.len() <= u32::MAX,
    ensures
        final(out)@ == old(out)@ + struct_pod(body@),
{
    (body.len() as u32).append_le_bytes(out);
    STRUCT.append_le_bytes(out);
    push_bytes(out, body);
    assert(out@ =~= old(out)@ + struct_pod(body@));
}

/// The number of values of the parameters `ids`, wrapping around at
/// `u32`.
fn params_count_of(parameters: &Parameters, ids: &Vec<u32>) -> (r: u32)
    ensures
        r == params_count(ids@, parameters.spec_entries()) % 0x1_0000_0000,
{
    let ghost m = parameters.spec_entries();
    let ghost is = ids@;
    let mut count: u32 = 0;
    let mut i: usize = 0;
    while i < ids.len()
        invariant
            0 <= i <= ids@.len(),
            is == ids@,
            m == parameters.spec_entries(),
            count == params_count(is.take(i as int), m) % 0x1_0000_0000,
        decreases ids@.len() - i,
    {
        let n = parameters.get(ids[i]).len();
        proof {
            assert(is.take(i + 1).drop_last() =~= is.take(i as int));
            vstd::arithmetic::div_mod::lemma_add_mod_noop(
                params_count(is.take(i as int), m) as int,
                n as int,
                0x1_0000_0000,
            );
        }
        count = ((count as u64 + (n as u64) % 0x1_0000_0000) % 0x1_0000_0000) as u32;
        i = i + 1;
    }
    assert(is.take(ids@.len() as int) =~= is);
    count
}

/// Append the values of the parameters `ids`.
fn push_params(body: &mut Vec<u8>, parameters: &Parameters, ids: &Vec<u32>)
    ensures
        final(body)@ == old(body)@ + params_pods(ids@, parameters.spec_entries()),
{
    let ghost m = parameters.spec_entries();
    let ghost is = ids@;
    let ghost head = body@;
    let mut i: usize = 0;
    while i < ids.len()
        invariant
            0 <= i <= ids@.len(),
            is == ids@,
            m == parameters.spec_entries(),
            body@ == head + params_pods(is.take(i as int), m),
        decreases ids@.len() - i,
    {
        let vals = parameters.get(ids[i]);
        let ghost before = body@;
        let mut j: usize = 0;
        while j < vals.len()
            invariant
                0 <= j <= vals@.len(),
                body@ == before + values_pods(vals@.take(j as int)),
            decreases vals@.len() - j,
        {
            push_raw(body, vals[j].value.as_slice());
            proof {
                assert(vals@.take(j + 1).drop_last() =~= vals@.take(j as int));
            }
            j = j + 1;
        }
        proof {
            assert(vals@.take(j as int) =~= vals@);
            assert(is.take(i + 1).drop_last() =~= is.take(i as int));
        }
        i = i + 1;
    }
    assert(is.take(ids@.len() as int) =~= is);
}

/// Append each property as its key and its value.
fn push_props(info: &mut Vec<u8>, properties: &Properties)
    ensures
        final(info)@ == old(info)@ + props_pods(properties@),
{
    let ghost ps = properties@;
    let pairs = properties.pairs();
    let ghost start = info@;
    let mut k: usize = 0;
    while k < pairs.len()
        invariant
            0 <= k <= pairs@.len(),
            pairs@.len() == ps.len(),
            forall|x: int| 0 <= x < pairs@.len() ==> (#[trigger] pairs@[x].0@, pairs@[x].1@) == ps[x],
            info@ == start + props_pods(ps.take(k as int)),
        decreases pairs@.len() - k,
    {
        push_string(info, pairs[k].0.as_slice());
        push_string(info, pairs[k].1.as_slice());
        proof {
            assert((pairs@[k as int].0@, pairs@[k as int].1@) == ps[k as int]);
            assert(ps.take(k + 1).drop_last() =~= ps.take(k as int));
        }
        k = k + 1;
    }
    assert(ps.take(pairs@.len() as int) =~= ps);
}

/// Append each parameter of `ids` as its identifier and its flags.
fn push_flags(info: &mut Vec<u8>, parameters: &Parameters, ids: &Vec<u32>)
    ensures
        final(info)@ == old(info)@ + flags_pods(ids@, parameters.spec_entries()),
{
    let ghost m = parameters.spec_entries();
    let ghost is = ids@;
    let ghost start = info@;
    let mut i: usize = 0;
    while i < ids.len()
        invariant
            0 <= i <= ids@.len(),
            is == ids@,
            m == parameters.spec_entries(),
            info@ == start + flags_pods(is.take(i as int), m),
        decreases ids@.len() - i,
    {
        push_id(info, ids[i]);
        push_int(info, parameters.flags_of(ids[i]));
        proof {
            assert(is.take(i + 1).drop_last() =~= is.take(i as int));
        }
        i = i + 1;
    }
    assert(is.take(ids@.len() as int) =~= is);
}

/// The port information of an update.
fn port_info_bytes(
    properties: &Properties,
    parameters: &Parameters,
    ids: &Vec<u32>,
    props_modified: bool,
    params_modified: bool,
) -> (r: Vec<u8>)
    ensures
        r@ == port_info(
            properties@,
            ids@,
            parameters.spec_entries(),
            props_modified,
            params_modified,
        ),
{
    let change: u64 = PORT_CHANGE_FLAGS | (if props_modified {
        PORT_CHANGE_PROPS
    } else {
        0
    }) | (if params_modified {
        PORT_CHANGE_PARAMS
    } else {
        0
    });
    let mut info: Vec<u8> = Vec::new();
    push_long(&mut info, change);
    push_long(&mut info, 0);
    push_fraction(&mut info, 0, 0);
    if props_modified {
        push_int(&mut info, properties.len() as u32);
        push_props(&mut info, properties);
    } else {
        push_int(&mut info, 0);
    }
    if params_modified {
        push_int(&mut info, ids.len() as u32);
        push_flags(&mut info, parameters, ids);
    } else {
        push_int(&mut info, 0);
    }
    assert(info@ =~= port_info(
        properties@,
        ids@,
        parameters.spec_entries(),
        props_modified,
        params_modified,
    ));
    info
}

/// The sequence number after `s`, wrapping around.
pub open spec fn next_sync(s: u32) -> u32 {
    if s == u32::MAX {
        0
    } else {
        (s + 1) as u32
    }
}

/// The sequence number of the synchronisation after `k` earlier ones of a
/// new client: one more than `k`, wrapping around.
pub open spec fn sync_number(k: nat) -> u32 {
    ((k + 1) % 0x1_0000_0000) as u32
}

/// A new client numbers its first synchronisation one, and each one after
/// that one more than the one before, wrapping around: after `k` earlier
/// synchronisations the next carries `k + 1`, modulo 2^32.
pub proof fn lemma_sync_numbering(k: nat, before: u32)
    requires
        before == sync_number(k),
    ensures
        sync_number(0) == 1,
        next_sync(before) == sync_number(k + 1),
{
    assert(((k + 1) % 0x1_0000_0000 + 1) % 0x1_0000_0000 == (k + 2) % 0x1_0000_0000) by {
        vstd::arithmetic::div_mod::lemma_add_mod_noop((k + 1) as int, 1, 0x1_0000_0000);
    }
}

/// The node information of an update.
fn node_info_bytes(
    max_input_ports: u32,
    max_output_ports: u32,
    properties: &Properties,
    parameters: &Parameters,
    ids: &Vec<u32>,
    props_modified: bool,
) -> (r: Vec<u8>)
    ensures
        r@ == node_info(
            max_input_ports,
            max_output_ports,
            properties@,
            ids@,
            parameters.spec_entries(),
            props_modified,
        ),
{
    let change: u64 = NODE_CHANGE_FLAGS | (if props_modified {
        NODE_CHANGE_PROPS
    } else {
        0
    }) | (if ids.len() > 0 {
        NODE_CHANGE_PARAMS
    } else {
        0
    });
    let mut info: Vec<u8> = Vec::new();
    push_int(&mut info, max_input_ports);
    push_int(&mut info, max_output_ports);
    push_long(&mut info, change);
    push_long(&mut info, NODE_IN_DYNAMIC_PORTS | NODE_OUT_DYNAMIC_PORTS);
    if props_modified {
        push_int(&mut info, properties.len() as u32);
        push_props(&mut info, properties);
    } else {
        push_int(&mut info, 0);
    }
    push_int(&mut info, ids.len() as u32);
    push_flags(&mut info, parameters, ids);
    assert(info@ =~= node_info(
        max_input_ports,
        max_output_ports,
        properties@,
        ids@,
        parameters.spec_entries(),
        props_modified,
    ));
    info
}

/// A client's requests, numbering its synchronisations.
pub struct Client {
    sync_sequence: u32,
}

impl Client {
    /// The sequence number the next synchronisation carries.
    pub closed spec fn spec_sync_sequence(&self) -> u32 {
        self.sync_sequence
    }

    /// A client whose first synchronisation is numbered one.
    pub fn new() -> (r: Self)
        ensures
            r.spec_sync_sequence() == 1,
    {
        Client { sync_sequence: 1 }
    }

    /// The body of the hello to the core: the protocol version.
    pub fn core_hello(&self, version: u32) -> (r: Vec<u8>)
        ensures
            r@ == encode_struct(seq![FieldModel::Int(version as i32)]),
    {
        let fields = [Field::Int(version as i32)];
        proof {
            assert(fields@ == seq![Field::Int(version as i32)]);
            assert(models(fields@) =~= seq![FieldModel::Int(version as i32)]);
        }
        struct_body(&fields)
    }

    /// The body of a request for the registry: its version and the local
    /// id it is to be bound to.
    pub fn core_get_registry(&self, version: u32, new_id: LocalId) -> (r: Vec<u8>)
        ensures
            r@ == encode_struct(
                seq![FieldModel::Int(version as i32), FieldModel::Int(new_id.0 as i32)],
            ),
    {
        let fields = [Field::Int(version as i32), Field::Int(new_id.0 as i32)];
        proof {
            assert(models(fields@) =~= seq![
                FieldModel::Int(version as i32),
                FieldModel::Int(new_id.0 as i32),
            ]);
        }
        struct_body(&fields)
    }

    /// The body of a synchronisation with `id`, and the sequence number it
    /// carries; the next one carries the number after it, wrapping around.
    pub fn core_sync(&mut self, id: i32) -> (r: (u32, Vec<u8>))
        ensures
            r.0 == old(self).spec_sync_sequence(),
            final(self).spec_sync_sequence() == next_sync(old(self).spec_sync_sequence()),
            r.1@ == encode_struct(seq![FieldModel::Int(id), FieldModel::Int(r.0 as i32)]),
    {
        let sequence = self.sync_sequence;
        self.sync_sequence = if sequence == u32::MAX {
            0
        } else {
            sequence + 1
        };
        let fields = [Field::Int(id), Field::Int(sequence as i32)];
        proof {
            assert(models(fields@) =~= seq![FieldModel::Int(id), FieldModel::Int(sequence as i32)]);
        }
        (sequence, struct_body(&fields))
    }

    /// The body of the answer to a ping with `id` and `seq`.
    pub fn core_pong(&self, id: u32, seq: u32) -> (r: Vec<u8>)
        ensures
            r@ == encode_struct(seq![FieldModel::Int(id as i32), FieldModel::Int(seq as i32)]),
    {
        let fields = [Field::Int(id as i32), Field::Int(seq as i32)];
        proof {
            assert(models(fields@) =~= seq![
                FieldModel::Int(id as i32),
                FieldModel::Int(seq as i32),
            ]);
        }
        struct_body(&fields)
    }

    /// The body of a request to bind a client node: its version and the id
    /// it is to be bound to.
    pub fn client_node_get_node(&self, version: u32, new_id: u32) -> (r: Vec<u8>)
        ensures
            r@ == encode_struct(
                seq![FieldModel::Int(version as i32), FieldModel::Int(new_id as i32)],
            ),
    {
        let fields = [Field::Int(version as i32), Field::Int(new_id as i32)];
        proof {
            assert(models(fields@) =~= seq![
                FieldModel::Int(version as i32),
                FieldModel::Int(new_id as i32),
            ]);
        }
        struct_body(&fields)
    }

    /// The body of a request to make a client node active or not.
    pub fn client_node_set_active(&self, active: bool) -> (r: Vec<u8>)
        ensures
            r@ == encode_struct(seq![FieldModel::Bool(active)]),
    {
        let fields = [Field::Bool(active)];
        proof {
            assert(models(fields@) =~= seq![FieldModel::Bool(active)]);
        }
        struct_body(&fields)
    }

    /// The body of an update of a client node that has at most
    /// `max_input_ports` and `max_output_ports` ports: the values of every
    /// parameter and the node information, which holds the properties where
    /// they changed and the flags of every parameter. The properties are
    /// then no longer counted as changed. Fails with `SizeOverflow` when the
    /// body is too large for its size to fit in a `u32`.
    pub fn client_node_update(
        &self,
        max_input_ports: u32,
        max_output_ports: u32,
        properties: &mut Properties,
        parameters: &Parameters,
    ) -> (r: Result<Vec<u8>, Error>)
        ensures
            final(properties)@ == old(properties)@,
            !final(properties).spec_modified(),
            exists|ids: Seq<u32>|
                {
                    &&& in_order(ids, parameters.spec_entries())
                    &&& ({
                        let body = node_update_body(
                            max_input_ports,
                            max_output_ports,
                            old(properties)@,
                            ids,
                            parameters.spec_entries(),
                            old(properties).spec_modified(),
                        );
                        &&& r is Ok <==> body.len() <= u32::MAX
                        &&& r matches Ok(v) ==> v@ == struct_pod(body)
                        &&& r is Err ==> r == Err::<Vec<u8>, Error>(
                            (Error { kind: ErrorKind::SizeOverflow }),
                        )
                    })
                },
    {
        let props_modified = properties.take_modified();
        let ghost m = parameters.spec_entries();
        let ghost ps = properties@;
        let ids = parameters.ids();
        let ghost is = ids@;
        let mut body: Vec<u8> = Vec::new();
        push_int(&mut body, NODE_UPDATE_PARAMS | NODE_UPDATE_INFO);
        push_int(&mut body, params_count_of(parameters, &ids));
        push_params(&mut body, parameters, &ids);
        let info = node_info_bytes(
            max_input_ports,
            max_output_ports,
            properties,
            parameters,
            &ids,
            props_modified,
        );
        let ghost full = node_update_body(
            max_input_ports,
            max_output_ports,
            ps,
            is,
            m,
            props_modified,
        );
        let ghost pre = body@;
        proof {
            assert(pre + struct_pod(info@) =~= full);
            assert(in_order(is, m));
        }
        if info.len() > 0xffff_ffff {
            return Err(Error::new(ErrorKind::SizeOverflow));
        }
        push_struct(&mut body, info.as_slice());
        if body.len() > 0xffff_ffff {
            return Err(Error::new(ErrorKind::SizeOverflow));
        }
        let mut out: Vec<u8> = Vec::new();
        push_struct(&mut out, body.as_slice());
        Ok(out)
    }

    /// The body of an update of the port `port_id` of a client node, in
    /// `direction`: what it asks for, the values of every parameter, and
    /// the port information, which holds the properties and the flags of
    /// the parameters where they changed. Both are then no longer counted
    /// as changed. Fails with `SizeOverflow` when the body is too large for
    /// its size to fit in a `u32`.
    pub fn client_node_port_update(
        &self,
        direction: u32,
        port_id: PortId,
        properties: &mut Properties,
        parameters: &mut Parameters,
    ) -> (r: Result<Vec<u8>, Error>)
        ensures
            final(properties)@ == old(properties)@,
            !final(properties).spec_modified(),
            final(parameters).spec_entries() == old(parameters).spec_entries(),
            !final(parameters).spec_modified(),
            exists|ids: Seq<u32>|
                {
                    &&& in_order(ids, old(parameters).spec_entries())
                    &&& ({
                        let body = port_update_body(
                            direction,
                            port_id.0,
                            old(properties)@,
                            ids,
                            old(parameters).spec_entries(),
                            old(properties).spec_modified(),
                            old(parameters).spec_modified(),
                        );
                        &&& r is Ok <==> body.len() <= u32::MAX
                        &&& r matches Ok(v) ==> v@ == struct_pod(body)
                        &&& r is Err ==> r == Err::<Vec<u8>, Error>(
                            (Error { kind: ErrorKind::SizeOverflow }),
                        )
                    })
                },
    {
        let props_modified = properties.take_modified();
        let params_modified = parameters.take_modified();
        let ghost m = parameters.spec_entries();
        let ghost ps = properties@;
        let ids = parameters.ids();
        let ghost is = ids@;
        let mut body: Vec<u8> = Vec::new();
        push_int(&mut body, direction);
        push_int(&mut body, port_id.0);
        let mask = if ids.len() > 0 {
            PORT_UPDATE_PARAMS | PORT_UPDATE_INFO
        } else {
            PORT_UPDATE_INFO
        };
        push_int(&mut body, mask);
        push_int(&mut body, params_count_of(parameters, &ids));
        push_params(&mut body, parameters, &ids);
        let info = port_info_bytes(properties, parameters, &ids, props_modified, params_modified);
        let ghost full = port_update_body(
            direction,
            port_id.0,
            ps,
            is,
            m,
            props_modified,
            params_modified,
        );
        let ghost pre = body@;
        proof {
            assert(pre + struct_pod(info@) =~= full);
            assert(in_order(is, m));
        }
        if info.len() > 0xffff_ffff {
            return Err(Error::new(ErrorKind::SizeOverflow));
        }
        push_struct(&mut body, info.as_slice());
        if body.len() > 0xffff_ffff {
            return Err(Error::new(ErrorKind::SizeOverflow));
        }
        let mut out: Vec<u8> = Vec::new();
        push_struct(&mut out, body.as_slice());
        Ok(out)
    }
}


} // verus!
