use vstd::prelude::*;

verus! {

/// The closed set of failure kinds.
///
/// Every fallible operation of the codec returns exactly one of these by
/// value; verified code never panics. Each variant names the operation it
/// comes from and the condition that raises it.
#[allow(non_camel_case_types)]
#[derive(Clone, Copy, Debug, PartialEq, Eq, Structural)]
pub enum Error {
    template__decode__should_not_have_any_remainder,
    template__from_jinyang__insufficient_bytes,
    template__from_jinyang__invalid_template_id,
    template__from_jinyang__should_not_have_any_remainder,
    fixed__new__invalid_template_id,
    fixed__new__alpha__length_too_small,
    fixed__new__alpha__length_too_big,
    fixed__new__beta__length_too_small,
    fixed__new__beta__length_too_big,
    fixed__encode_to__unsupported_nest_shape,
    fixed__encode_to__bytes_length_should_match_self_length,
    fixed__decode_with_remainder__bytes_length_should_be_gte_self_length,
    dynamic__new__invalid_template_id,
    dynamic__encode_to__unsupported_nest_shape,
    dynamic__encode_to__bytes_length_should_be_lte_max_length,
    dynamic__decode_with_remainder__bytes_length_should_be_gte_length_encoding_length,
    dynamic__decode_with_remainder__bytes_length_should_be_gte_length_encoding_length_plus_length,
    dlist__new__invalid_template_id,
    dlist__encode_to__unsupported_nest_shape,
    dlist__encode_to__nests_length_should_be_lte_max_length,
    dlist__decode_with_remainder__bytes_length_should_be_gte_length_encoding_length,
    dlist__decode_with_remainder__missing_inner_template_id,
    dlist__decode_with_remainder__unexpected_inner_template_id,
}

} // verus!
