use noodles_codecs::cram_record::{
    update_substitution_features, Base, Feature, Record, SubstitutionMatrix, SubstitutionValue,
};
use noodles_codecs::gzip;
use noodles_codecs::reference::{ReferenceSequences, Repository};
use noodles_codecs::slice::{
    find_slice_alignment_positions, find_slice_reference_sequence_id, AddRecordError, Builder,
    CompressionHeader, ReferenceSequenceId,
};

fn mapped_record(reference_sequence_id: u32, start: u64, end: u64) -> Record {
    Record {
        reference_sequence_id: Some(reference_sequence_id),
        alignment_start: Some(start),
        alignment_end: Some(end),
        features: Vec::new(),
        cram_bit_flags: 0,
        distance_to_next_fragment: Some(8),
    }
}

fn unmapped_record() -> Record {
    Record {
        reference_sequence_id: None,
        alignment_start: None,
        alignment_end: None,
        features: Vec::new(),
        cram_bit_flags: 0,
        distance_to_next_fragment: None,
    }
}

fn identity_matrix() -> SubstitutionMatrix {
    let mut codes = Vec::new();
    for i in 0..25 {
        codes.push(i as u8);
    }
    SubstitutionMatrix::new(codes)
}

fn test_context() -> (Repository, ReferenceSequences, CompressionHeader) {
    let mut repository = Repository::new();
    repository.insert(b"sq5".to_vec(), vec![b'A'; 200]);

    let names = vec![
        b"sq0".to_vec(),
        b"sq1".to_vec(),
        b"sq2".to_vec(),
        b"sq3".to_vec(),
        b"sq4".to_vec(),
        b"sq5".to_vec(),
    ];
    let header = ReferenceSequences::new(names);

    let compression_header = CompressionHeader {
        substitution_matrix: identity_matrix(),
        tag_encoding_ids: vec![7077218],
    };

    (repository, header, compression_header)
}

#[test]
fn test_add_record_pins_reference_sequence() {
    let mut builder = Builder::default();
    assert!(builder.is_empty());

    builder.add_record(mapped_record(1, 10, 20)).unwrap();
    assert!(!builder.is_empty());
    assert_eq!(builder.records().len(), 1);

    assert!(matches!(
        builder.add_record(mapped_record(2, 30, 40)),
        Err(AddRecordError::ReferenceSequenceIdMismatch(_)),
    ));

    builder.add_record(mapped_record(1, 30, 40)).unwrap();
    assert_eq!(builder.records().len(), 2);
}

#[test]
fn test_add_record_slice_full() {
    let mut builder = Builder::default();

    for _ in 0..10240 {
        builder.add_record(unmapped_record()).unwrap();
    }

    assert!(matches!(
        builder.add_record(unmapped_record()),
        Err(AddRecordError::SliceFull(_)),
    ));
}

#[test]
fn test_find_slice_reference_sequence_id() {
    let records = vec![mapped_record(5, 1, 2), mapped_record(5, 3, 4)];
    assert_eq!(
        find_slice_reference_sequence_id(&records),
        ReferenceSequenceId::Single(5)
    );

    let records = vec![unmapped_record(), unmapped_record()];
    assert_eq!(
        find_slice_reference_sequence_id(&records),
        ReferenceSequenceId::Unmapped
    );

    let records = vec![mapped_record(5, 1, 2), unmapped_record()];
    assert_eq!(
        find_slice_reference_sequence_id(&records),
        ReferenceSequenceId::Many
    );
}

#[test]
fn test_find_slice_alignment_positions() {
    let records = vec![
        mapped_record(5, 100, 150),
        mapped_record(5, 50, 200),
        mapped_record(5, 80, 120),
    ];
    assert_eq!(
        find_slice_alignment_positions(&records),
        (Some(50), Some(200))
    );
}

#[test]
fn test_build_classifies_and_spans() {
    let (repository, header, compression_header) = test_context();

    let mut builder = Builder::default();
    builder.add_record(mapped_record(5, 100, 150)).unwrap();
    builder.add_record(mapped_record(5, 50, 200)).unwrap();
    builder.add_record(mapped_record(5, 80, 120)).unwrap();

    let slice = builder
        .build(&repository, &header, &compression_header, 21)
        .unwrap();

    assert_eq!(
        slice.header.reference_sequence_id,
        ReferenceSequenceId::Single(5)
    );
    assert_eq!(slice.header.alignment_start, Some(50));
    assert_eq!(slice.header.alignment_span, Some(151));
    assert_eq!(slice.header.record_count, 3);
    assert_eq!(slice.header.record_counter, 21);
    assert_eq!(slice.header.block_count, 4);
    assert_eq!(slice.header.block_content_ids, vec![0, 1, 2, 3]);

    // the digest of the covered region, positions 50 through 200 of sq5
    assert_eq!(
        slice.header.reference_md5,
        vec![
            241, 197, 182, 133, 123, 148, 170, 5, 216, 112, 54, 100, 201, 113, 185, 33
        ]
    );
}

#[test]
fn test_build_unmapped_has_zero_md5() {
    let (repository, header, compression_header) = test_context();

    let mut builder = Builder::default();
    builder.add_record(unmapped_record()).unwrap();
    builder.add_record(unmapped_record()).unwrap();

    let slice = builder
        .build(&repository, &header, &compression_header, 0)
        .unwrap();

    assert_eq!(
        slice.header.reference_sequence_id,
        ReferenceSequenceId::Unmapped
    );
    assert_eq!(slice.header.alignment_start, None);
    assert_eq!(slice.header.alignment_span, None);
    assert_eq!(slice.header.reference_md5, vec![0; 16]);
}

#[test]
fn test_build_detaches_records_in_core_block() {
    let (repository, header, compression_header) = test_context();

    let mut builder = Builder::default();
    let mut record = unmapped_record();
    record.cram_bit_flags = 0x04;
    record.distance_to_next_fragment = Some(3);
    builder.add_record(record).unwrap();

    let slice = builder
        .build(&repository, &header, &compression_header, 0)
        .unwrap();

    // decompressing the core block gives one flags byte per record, in
    // detached form: bit 0x02 set, bit 0x04 cleared
    let mut flags = vec![0u8; 1];
    gzip::decode(&slice.core_data_block.data, &mut flags).unwrap();
    assert_eq!(flags, vec![0x02]);
}

#[test]
fn test_update_substitution_features() {
    let matrix = identity_matrix();

    let mut features = vec![
        Feature::Substitution(5, SubstitutionValue::Bases(Base::A, Base::C)),
        Feature::Deletion(8, 2),
    ];

    update_substitution_features(&matrix, &mut features);

    assert_eq!(
        features,
        vec![
            Feature::Substitution(5, SubstitutionValue::Code(1)),
            Feature::Deletion(8, 2),
        ]
    );
}

#[test]
fn test_gzip_round_trip() {
    let encoded = gzip::encode(b"noodles").unwrap();
    assert_ne!(encoded, b"noodles".to_vec());

    let mut decoded = vec![0u8; 7];
    gzip::decode(&encoded, &mut decoded).unwrap();
    assert_eq!(decoded, b"noodles".to_vec());
}

#[test]
fn test_gzip_decode_short_member() {
    // asking for more bytes than the member holds ends the stream early
    let encoded = gzip::encode(b"noodles").unwrap();

    let mut decoded = vec![0u8; 8];
    assert!(gzip::decode(&encoded, &mut decoded).is_err());
}
