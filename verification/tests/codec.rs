use hendricks::encoder::Encoder;
use hendricks::encoders::dlist::Dlist;
use hendricks::encoders::dynamic::Dynamic;
use hendricks::encoders::fixed::Fixed;
use hendricks::error::Error;
use hendricks::nest::Nest;
use hendricks::template::Template;
use hendricks::template_ids::TemplateId;

fn fixed_template(id: TemplateId, length: usize) -> Template {
    Template::new(Encoder::Fixed(Fixed::new(id, length).unwrap()))
}

fn dynamic_template(id: TemplateId) -> Template {
    Template::new(Encoder::Dynamic(Dynamic::new(id).unwrap()))
}

fn dlist_template(id: TemplateId, inner: Template) -> Template {
    Template::new(Encoder::Dlist(Dlist::new(id, inner).unwrap()))
}

#[test]
fn fixed_alpha_length_one_boundary_scenario() {
    let template = fixed_template(TemplateId::FixedAlpha, 1);
    assert_eq!(template.encode(&Nest::Bytes(vec![0x07])), Ok(vec![0x07]));
    assert_eq!(template.decode(&[0x07]), Ok(Nest::Bytes(vec![0x07])));
    assert_eq!(
        template.decode(&[]),
        Err(Error::fixed__decode_with_remainder__bytes_length_should_be_gte_self_length)
    );
}

#[test]
fn fixed_beta_min_length_scenario() {
    let template = fixed_template(TemplateId::FixedBeta, 257);
    assert_eq!(template.encode(&Nest::Bytes(vec![0x01; 257])), Ok(vec![0x01; 257]));
    assert_eq!(template.export_jinyang(), vec![0x01, 0x00, 0x00]);
}

#[test]
fn dynamic_alpha_empty_payload_scenario() {
    let template = dynamic_template(TemplateId::DynamicAlpha);
    assert_eq!(template.encode(&Nest::Bytes(vec![])), Ok(vec![0x00]));
    assert_eq!(template.decode(&[0x00]), Ok(Nest::Bytes(vec![])));
    assert_eq!(
        template.encode(&Nest::Bytes(vec![0x01; 256])),
        Err(Error::dynamic__encode_to__bytes_length_should_be_lte_max_length)
    );
}

#[test]
fn dynamic_beta_two_byte_prefix_scenario() {
    let template = dynamic_template(TemplateId::DynamicBeta);
    let mut expected = vec![0x00, 0x01];
    expected.extend_from_slice(&[0x01; 256]);
    assert_eq!(template.encode(&Nest::Bytes(vec![0x01; 256])), Ok(expected));
}

#[test]
fn dynamic_gamma_three_byte_prefix_scenario() {
    let template = dynamic_template(TemplateId::DynamicGamma);
    let mut expected = vec![0x00, 0x00, 0x01];
    expected.extend_from_slice(&[0x01; 65536]);
    assert_eq!(template.encode(&Nest::Bytes(vec![0x01; 65536])), Ok(expected));
}

#[test]
fn dlist_alpha_over_dynamic_alpha_scenario() {
    let template = dlist_template(
        TemplateId::DlistAlpha,
        dynamic_template(TemplateId::DynamicAlpha),
    );
    let nest = Nest::Nests(vec![Nest::Bytes(vec![0xAA]), Nest::Bytes(vec![0xBB, 0xCC])]);
    let expected = vec![0x02, 0x02, 0x01, 0xAA, 0x02, 0x02, 0xBB, 0xCC];
    assert_eq!(template.encode(&nest), Ok(expected.clone()));
    assert_eq!(template.decode(&expected), Ok(nest));
    assert_eq!(template.export_jinyang(), vec![0x06, 0x02]);
}

#[test]
fn dlist_round_trips_through_its_own_schema() {
    let template = dlist_template(
        TemplateId::DlistBeta,
        dlist_template(TemplateId::DlistAlpha, fixed_template(TemplateId::FixedAlpha, 2)),
    );
    let jinyang = template.export_jinyang();
    assert_eq!(jinyang, vec![0x07, 0x06, 0x00, 0x01]);
    let rebuilt = Template::from_jinyang(&jinyang).unwrap();
    assert_eq!(rebuilt.export_jinyang(), jinyang);

    let nest = Nest::Nests(vec![
        Nest::Nests(vec![Nest::Bytes(vec![1, 2]), Nest::Bytes(vec![3, 4])]),
        Nest::Nests(vec![]),
    ]);
    let encoded = rebuilt.encode(&nest).unwrap();
    assert_eq!(encoded, vec![2, 0, 6, 2, 0, 1, 2, 0, 3, 4, 6, 0]);
    assert_eq!(rebuilt.decode(&encoded), Ok(nest));
}

#[test]
fn every_dynamic_schema_reparses_to_itself() {
    for id in [
        TemplateId::DynamicAlpha,
        TemplateId::DynamicBeta,
        TemplateId::DynamicGamma,
        TemplateId::DynamicDelta,
    ] {
        let template = dynamic_template(id);
        let jinyang = template.export_jinyang();
        let rebuilt = Template::from_jinyang(&jinyang).unwrap();
        assert_eq!(rebuilt.id(), template.id());
        assert_eq!(rebuilt.export_jinyang(), jinyang);
    }
}

#[test]
fn fixed_beta_schema_encodes_length_minus_257_little_endian() {
    let template = fixed_template(TemplateId::FixedBeta, 0x1234 + 257);
    assert_eq!(template.export_jinyang(), vec![0x01, 0x34, 0x12]);
    let rebuilt = Template::from_jinyang(&[0x01, 0x34, 0x12]).unwrap();
    let fixed: &Fixed = match rebuilt.encoder() {
        Encoder::Fixed(f) => f,
        _ => panic!(),
    };
    assert_eq!(fixed.length(), 0x1234 + 257);
}

#[test]
fn decode_rejects_trailing_remainder() {
    let template = fixed_template(TemplateId::FixedAlpha, 1);
    assert_eq!(
        template.decode(&[1, 2]),
        Err(Error::template__decode__should_not_have_any_remainder)
    );
}

#[test]
fn decode_with_remainder_returns_unconsumed_tail() {
    let template = fixed_template(TemplateId::FixedAlpha, 2);
    let (nest, rest) = template.decode_with_remainder(&[9, 8, 7, 6]).unwrap();
    assert_eq!(nest, Nest::Bytes(vec![9, 8]));
    assert_eq!(rest, &[7, 6]);
}

#[test]
fn encode_to_appends_after_existing_sink_contents() {
    let template = dynamic_template(TemplateId::DynamicAlpha);
    let mut sink = vec![0xFE];
    assert_eq!(template.encode_to(&Nest::Bytes(vec![0x0A, 0x0B]), &mut sink), Ok(()));
    assert_eq!(sink, vec![0xFE, 0x02, 0x02, 0x0A, 0x0B]);
}

#[test]
fn from_jinyang_rejects_empty_and_truncated_schemas() {
    assert_eq!(
        Template::from_jinyang(&[]).err(),
        Some(Error::template__from_jinyang__insufficient_bytes)
    );
    assert_eq!(
        Template::from_jinyang(&[0]).err(),
        Some(Error::template__from_jinyang__insufficient_bytes)
    );
    assert_eq!(
        Template::from_jinyang(&[1, 0]).err(),
        Some(Error::template__from_jinyang__insufficient_bytes)
    );
    assert_eq!(
        Template::from_jinyang(&[6]).err(),
        Some(Error::template__from_jinyang__insufficient_bytes)
    );
}

#[test]
fn from_jinyang_rejects_unknown_id_byte() {
    assert_eq!(
        Template::from_jinyang(&[10]).err(),
        Some(Error::template__from_jinyang__invalid_template_id)
    );
    assert_eq!(
        Template::from_jinyang(&[255]).err(),
        Some(Error::template__from_jinyang__invalid_template_id)
    );
}

#[test]
fn from_jinyang_rejects_trailing_remainder() {
    assert_eq!(
        Template::from_jinyang(&[2, 0]).err(),
        Some(Error::template__from_jinyang__should_not_have_any_remainder)
    );
    let (template, rest) = Template::from_jinyang_with_remainder(&[2, 0]).unwrap();
    assert_eq!(template.id(), 2);
    assert_eq!(rest, &[0]);
}

#[test]
fn dlist_new_rejects_non_dlist_ids() {
    let inner = dynamic_template(TemplateId::DynamicAlpha);
    assert_eq!(
        Dlist::new(TemplateId::FixedAlpha, inner).err(),
        Some(Error::dlist__new__invalid_template_id)
    );
}

#[test]
fn dlist_encode_rejects_too_many_items() {
    let template = dlist_template(
        TemplateId::DlistAlpha,
        dynamic_template(TemplateId::DynamicAlpha),
    );
    let mut items = Vec::new();
    for _ in 0..256 {
        items.push(Nest::Bytes(vec![]));
    }
    assert_eq!(
        template.encode(&Nest::Nests(items)),
        Err(Error::dlist__encode_to__nests_length_should_be_lte_max_length)
    );
}

#[test]
fn dlist_accepts_max_items() {
    let template = dlist_template(
        TemplateId::DlistAlpha,
        dynamic_template(TemplateId::DynamicAlpha),
    );
    let mut items = Vec::new();
    for _ in 0..255 {
        items.push(Nest::Bytes(vec![]));
    }
    let nest = Nest::Nests(items);
    let encoded = template.encode(&nest).unwrap();
    assert_eq!(encoded.len(), 1 + 255 * 2);
    assert_eq!(encoded[0], 255);
    assert_eq!(template.decode(&encoded), Ok(nest));
}

#[test]
fn encoders_reject_a_nest_of_the_wrong_shape() {
    let fixed = fixed_template(TemplateId::FixedAlpha, 1);
    assert_eq!(
        fixed.encode(&Nest::Nests(vec![])),
        Err(Error::fixed__encode_to__unsupported_nest_shape)
    );
    let dynamic = dynamic_template(TemplateId::DynamicAlpha);
    assert_eq!(
        dynamic.encode(&Nest::Nests(vec![])),
        Err(Error::dynamic__encode_to__unsupported_nest_shape)
    );
    let dlist = dlist_template(TemplateId::DlistAlpha, dynamic_template(TemplateId::DynamicAlpha));
    assert_eq!(
        dlist.encode(&Nest::Bytes(vec![])),
        Err(Error::dlist__encode_to__unsupported_nest_shape)
    );
}

#[test]
fn dlist_decode_error_boundaries() {
    let template = dlist_template(
        TemplateId::DlistBeta,
        dynamic_template(TemplateId::DynamicAlpha),
    );
    // one byte short of the two-byte count prefix
    assert_eq!(
        template.decode(&[1]),
        Err(Error::dlist__decode_with_remainder__bytes_length_should_be_gte_length_encoding_length)
    );
    // count says one element but its id byte is missing
    assert_eq!(
        template.decode(&[1, 0]),
        Err(Error::dlist__decode_with_remainder__missing_inner_template_id)
    );
    // the element carries a Dynamic-β id where Dynamic-α was declared
    assert_eq!(
        template.decode(&[1, 0, 3, 0]),
        Err(Error::dlist__decode_with_remainder__unexpected_inner_template_id)
    );
    // the element's own payload is short: the inner error propagates
    assert_eq!(
        template.decode(&[1, 0, 2]),
        Err(Error::dynamic__decode_with_remainder__bytes_length_should_be_gte_length_encoding_length)
    );
    assert_eq!(
        template.decode(&[1, 0, 2, 2, 0xAA]),
        Err(Error::dynamic__decode_with_remainder__bytes_length_should_be_gte_length_encoding_length_plus_length)
    );
}

#[test]
fn dynamic_decode_error_boundaries_are_exact() {
    let template = dynamic_template(TemplateId::DynamicGamma);
    // a buffer of prefix-width − 1 bytes: insufficient prefix
    assert_eq!(
        template.decode(&[5, 0]),
        Err(Error::dynamic__decode_with_remainder__bytes_length_should_be_gte_length_encoding_length)
    );
    // prefix plus declared-length − 1 bytes: insufficient payload
    let mut short = vec![5, 0, 0];
    short.extend_from_slice(&[1; 4]);
    assert_eq!(
        template.decode(&short),
        Err(Error::dynamic__decode_with_remainder__bytes_length_should_be_gte_length_encoding_length_plus_length)
    );
    // exactly prefix plus declared length: success
    let mut exact = vec![5, 0, 0];
    exact.extend_from_slice(&[1; 5]);
    assert_eq!(template.decode(&exact), Ok(Nest::Bytes(vec![1; 5])));
}

#[test]
fn fixed_decode_consumes_exactly_its_length() {
    let template = fixed_template(TemplateId::FixedAlpha, 3);
    let buffer = [1, 2, 3, 4, 5];
    let (nest, rest) = template.decode_with_remainder(&buffer).unwrap();
    assert_eq!(nest, Nest::Bytes(vec![1, 2, 3]));
    assert_eq!(rest.len(), buffer.len() - 3);
}
