use netscanner::probes::tls::describe_certificate;

const ED25519_CERT: [u8; 268] = [
    0x30, 0x82, 0x01, 0x08, 0x30, 0x81, 0xbb, 0x02, 0x14, 0x77, 0xe5, 0xf4, 0xc0, 0x34, 0x88,
    0xa1, 0x22, 0x6c, 0xf5, 0xcd, 0x45, 0xf3, 0xcd, 0xf0, 0x49, 0x91, 0xf8, 0x15, 0x43, 0x30,
    0x05, 0x06, 0x03, 0x2b, 0x65, 0x70, 0x30, 0x27, 0x31, 0x0b, 0x30, 0x09, 0x06, 0x03, 0x55,
    0x04, 0x06, 0x13, 0x02, 0x44, 0x45, 0x31, 0x18, 0x30, 0x16, 0x06, 0x03, 0x55, 0x04, 0x03,
    0x0c, 0x0f, 0x77, 0x77, 0x77, 0x2e, 0x65, 0x78, 0x61, 0x6d, 0x70, 0x6c, 0x65, 0x2e, 0x63,
    0x6f, 0x6d, 0x30, 0x1e, 0x17, 0x0d, 0x32, 0x31, 0x30, 0x37, 0x32, 0x37, 0x31, 0x32, 0x33,
    0x37, 0x31, 0x34, 0x5a, 0x17, 0x0d, 0x32, 0x33, 0x30, 0x36, 0x32, 0x37, 0x31, 0x32, 0x33,
    0x37, 0x31, 0x34, 0x5a, 0x30, 0x27, 0x31, 0x0b, 0x30, 0x09, 0x06, 0x03, 0x55, 0x04, 0x06,
    0x13, 0x02, 0x44, 0x45, 0x31, 0x18, 0x30, 0x16, 0x06, 0x03, 0x55, 0x04, 0x03, 0x0c, 0x0f,
    0x77, 0x77, 0x77, 0x2e, 0x65, 0x78, 0x61, 0x6d, 0x70, 0x6c, 0x65, 0x2e, 0x63, 0x6f, 0x6d,
    0x30, 0x2a, 0x30, 0x05, 0x06, 0x03, 0x2b, 0x65, 0x70, 0x03, 0x21, 0x00, 0x3e, 0xa4, 0x05,
    0xd2, 0xef, 0x19, 0xf5, 0xe0, 0xab, 0xf3, 0x3e, 0x4d, 0xf5, 0x4e, 0xe5, 0x1d, 0x05, 0x44,
    0x79, 0x3d, 0x98, 0xe2, 0x67, 0x25, 0x37, 0xf4, 0xff, 0xca, 0xf8, 0x60, 0x98, 0x4c, 0x30,
    0x05, 0x06, 0x03, 0x2b, 0x65, 0x70, 0x03, 0x41, 0x00, 0x20, 0xdb, 0x7a, 0xe6, 0xfa, 0xc2,
    0x88, 0xe9, 0x59, 0xf4, 0x6a, 0xca, 0xb2, 0xd7, 0x2c, 0x48, 0x0d, 0x55, 0xbc, 0x0f, 0x27,
    0x57, 0x32, 0x52, 0x68, 0x3f, 0xe8, 0x01, 0xaa, 0x9e, 0x83, 0xd2, 0x23, 0xc3, 0xb4, 0x8c,
    0x17, 0x93, 0x70, 0x6b, 0xde, 0x0d, 0xc4, 0xaa, 0x36, 0x71, 0xc8, 0x83, 0x83, 0xb1, 0xe4,
    0x1a, 0x6e, 0x52, 0x8b, 0xd6, 0xbc, 0x02, 0xa6, 0x26, 0xea, 0x8d, 0xd5, 0x02
];

const IGC_A_CERT: [u8; 1030] = [
    0x30, 0x82, 0x04, 0x02, 0x30, 0x82, 0x02, 0xea, 0xa0, 0x03, 0x02, 0x01, 0x02, 0x02, 0x05,
    0x39, 0x11, 0x45, 0x10, 0x94, 0x30, 0x0d, 0x06, 0x09, 0x2a, 0x86, 0x48, 0x86, 0xf7, 0x0d,
    0x01, 0x01, 0x05, 0x05, 0x00, 0x30, 0x81, 0x85, 0x31, 0x0b, 0x30, 0x09, 0x06, 0x03, 0x55,
    0x04, 0x06, 0x13, 0x02, 0x46, 0x52, 0x31, 0x0f, 0x30, 0x0d, 0x06, 0x03, 0x55, 0x04, 0x08,
    0x13, 0x06, 0x46, 0x72, 0x61, 0x6e, 0x63, 0x65, 0x31, 0x0e, 0x30, 0x0c, 0x06, 0x03, 0x55,
    0x04, 0x07, 0x13, 0x05, 0x50, 0x61, 0x72, 0x69, 0x73, 0x31, 0x10, 0x30, 0x0e, 0x06, 0x03,
    0x55, 0x04, 0x0a, 0x13, 0x07, 0x50, 0x4d, 0x2f, 0x53, 0x47, 0x44, 0x4e, 0x31, 0x0e, 0x30,
    0x0c, 0x06, 0x03, 0x55, 0x04, 0x0b, 0x13, 0x05, 0x44, 0x43, 0x53, 0x53, 0x49, 0x31, 0x0e,
    0x30, 0x0c, 0x06, 0x03, 0x55, 0x04, 0x03, 0x13, 0x05, 0x49, 0x47, 0x43, 0x2f, 0x41, 0x31,
    0x23, 0x30, 0x21, 0x06, 0x09, 0x2a, 0x86, 0x48, 0x86, 0xf7, 0x0d, 0x01, 0x09, 0x01, 0x16,
    0x14, 0x69, 0x67, 0x63, 0x61, 0x40, 0x73, 0x67, 0x64, 0x6e, 0x2e, 0x70, 0x6d, 0x2e, 0x67,
    0x6f, 0x75, 0x76, 0x2e, 0x66, 0x72, 0x30, 0x1e, 0x17, 0x0d, 0x30, 0x32, 0x31, 0x32, 0x31,
    0x33, 0x31, 0x34, 0x32, 0x39, 0x32, 0x33, 0x5a, 0x17, 0x0d, 0x32, 0x30, 0x31, 0x30, 0x31,
    0x37, 0x31, 0x34, 0x32, 0x39, 0x32, 0x32, 0x5a, 0x30, 0x81, 0x85, 0x31, 0x0b, 0x30, 0x09,
    0x06, 0x03, 0x55, 0x04, 0x06, 0x13, 0x02, 0x46, 0x52, 0x31, 0x0f, 0x30, 0x0d, 0x06, 0x03,
    0x55, 0x04, 0x08, 0x13, 0x06, 0x46, 0x72, 0x61, 0x6e, 0x63, 0x65, 0x31, 0x0e, 0x30, 0x0c,
    0x06, 0x03, 0x55, 0x04, 0x07, 0x13, 0x05, 0x50, 0x61, 0x72, 0x69, 0x73, 0x31, 0x10, 0x30,
    0x0e, 0x06, 0x03, 0x55, 0x04, 0x0a, 0x13, 0x07, 0x50, 0x4d, 0x2f, 0x53, 0x47, 0x44, 0x4e,
    0x31, 0x0e, 0x30, 0x0c, 0x06, 0x03, 0x55, 0x04, 0x0b, 0x13, 0x05, 0x44, 0x43, 0x53, 0x53,
    0x49, 0x31, 0x0e, 0x30, 0x0c, 0x06, 0x03, 0x55, 0x04, 0x03, 0x13, 0x05, 0x49, 0x47, 0x43,
    0x2f, 0x41, 0x31, 0x23, 0x30, 0x21, 0x06, 0x09, 0x2a, 0x86, 0x48, 0x86, 0xf7, 0x0d, 0x01,
    0x09, 0x01, 0x16, 0x14, 0x69, 0x67, 0x63, 0x61, 0x40, 0x73, 0x67, 0x64, 0x6e, 0x2e, 0x70,
    0x6d, 0x2e, 0x67, 0x6f, 0x75, 0x76, 0x2e, 0x66, 0x72, 0x30, 0x82, 0x01, 0x22, 0x30, 0x0d,
    0x06, 0x09, 0x2a, 0x86, 0x48, 0x86, 0xf7, 0x0d, 0x01, 0x01, 0x01, 0x05, 0x00, 0x03, 0x82,
    0x01, 0x0f, 0x00, 0x30, 0x82, 0x01, 0x0a, 0x02, 0x82, 0x01, 0x01, 0x00, 0xb2, 0x1f, 0xd1,
    0xd0, 0x62, 0xc5, 0x33, 0x3b, 0xc0, 0x04, 0x86, 0x88, 0xb3, 0xdc, 0xf8, 0x88, 0xf7, 0xfd,
    0xdf, 0x43, 0xdf, 0x7a, 0x8d, 0x9a, 0x49, 0x5c, 0xf6, 0x4e, 0xaa, 0xcc, 0x1c, 0xb9, 0xa1,
    0xeb, 0x27, 0x89, 0xf2, 0x46, 0xe9, 0x3b, 0x4a, 0x71, 0xd5, 0x1d, 0x8e, 0x2d, 0xcf, 0xe6,
    0xad, 0xab, 0x63, 0x50, 0xc7, 0x54, 0x0b, 0x6e, 0x12, 0xc9, 0x90, 0x36, 0xc6, 0xd8, 0x2f,
    0xda, 0x91, 0xaa, 0x68, 0xc5, 0x72, 0xfe, 0x17, 0x0a, 0xb2, 0x17, 0x7e, 0x79, 0xb5, 0x32,
    0x88, 0x70, 0xca, 0x70, 0xc0, 0x96, 0x4a, 0x8e, 0xe4, 0x55, 0xcd, 0x1d, 0x27, 0x94, 0xbf,
    0xce, 0x72, 0x2a, 0xec, 0x5c, 0xf9, 0x73, 0x20, 0xfe, 0xbd, 0xf7, 0x2e, 0x89, 0x67, 0xb8,
    0xbb, 0x47, 0x73, 0x12, 0xf7, 0xd1, 0x35, 0x69, 0x3a, 0xf2, 0x0a, 0xb9, 0xae, 0xff, 0x46,
    0x42, 0x46, 0xa2, 0xbf, 0xa1, 0x85, 0x1a, 0xf9, 0xbf, 0xe4, 0xff, 0x49, 0x85, 0xf7, 0xa3,
    0x70, 0x86, 0x32, 0x1c, 0x5d, 0x9f, 0x60, 0xf7, 0xa9, 0xad, 0xa5, 0xff, 0xcf, 0xd1, 0x34,
    0xf9, 0x7d, 0x5b, 0x17, 0xc6, 0xdc, 0xd6, 0x0e, 0x28, 0x6b, 0xc2, 0xdd, 0xf1, 0xf5, 0x33,
    0x68, 0x9d, 0x4e, 0xfc, 0x87, 0x7c, 0x36, 0x12, 0xd6, 0xa3, 0x80, 0xe8, 0x43, 0x0d, 0x55,
    0x61, 0x94, 0xea, 0x64, 0x37, 0x47, 0xea, 0x77, 0xca, 0xd0, 0xb2, 0x58, 0x05, 0xc3, 0x5d,
    0x7e, 0xb1, 0xa8, 0x46, 0x90, 0x31, 0x56, 0xce, 0x70, 0x2a, 0x96, 0xb2, 0x30, 0xb8, 0x77,
    0xe6, 0x79, 0xc0, 0xbd, 0x29, 0x3b, 0xfd, 0x94, 0x77, 0x4c, 0xbd, 0x20, 0xcd, 0x41, 0x25,
    0xe0, 0x2e, 0xc7, 0x1b, 0xbb, 0xee, 0xa4, 0x04, 0x41, 0xd2, 0x5d, 0xad, 0x12, 0x6a, 0x8a,
    0x9b, 0x47, 0xfb, 0xc9, 0xdd, 0x46, 0x40, 0xe1, 0x9d, 0x3c, 0x33, 0xd0, 0xb5, 0x02, 0x03,
    0x01, 0x00, 0x01, 0xa3, 0x77, 0x30, 0x75, 0x30, 0x0f, 0x06, 0x03, 0x55, 0x1d, 0x13, 0x01,
    0x01, 0xff, 0x04, 0x05, 0x30, 0x03, 0x01, 0x01, 0xff, 0x30, 0x0b, 0x06, 0x03, 0x55, 0x1d,
    0x0f, 0x04, 0x04, 0x03, 0x02, 0x01, 0x46, 0x30, 0x15, 0x06, 0x03, 0x55, 0x1d, 0x20, 0x04,
    0x0e, 0x30, 0x0c, 0x30, 0x0a, 0x06, 0x08, 0x2a, 0x81, 0x7a, 0x01, 0x79, 0x01, 0x01, 0x01,
    0x30, 0x1d, 0x06, 0x03, 0x55, 0x1d, 0x0e, 0x04, 0x16, 0x04, 0x14, 0xa3, 0x05, 0x2f, 0x18,
    0x60, 0x50, 0xc2, 0x89, 0x0a, 0xdd, 0x2b, 0x21, 0x4f, 0xff, 0x8e, 0x4e, 0xa8, 0x30, 0x31,
    0x36, 0x30, 0x1f, 0x06, 0x03, 0x55, 0x1d, 0x23, 0x04, 0x18, 0x30, 0x16, 0x80, 0x14, 0xa3,
    0x05, 0x2f, 0x18, 0x60, 0x50, 0xc2, 0x89, 0x0a, 0xdd, 0x2b, 0x21, 0x4f, 0xff, 0x8e, 0x4e,
    0xa8, 0x30, 0x31, 0x36, 0x30, 0x0d, 0x06, 0x09, 0x2a, 0x86, 0x48, 0x86, 0xf7, 0x0d, 0x01,
    0x01, 0x05, 0x05, 0x00, 0x03, 0x82, 0x01, 0x01, 0x00, 0x05, 0xdc, 0x26, 0xd8, 0xfa, 0x77,
    0x15, 0x44, 0x68, 0xfc, 0x2f, 0x66, 0x3a, 0x74, 0xe0, 0x5d, 0xe4, 0x29, 0xff, 0x06, 0x07,
    0x13, 0x84, 0x4a, 0xab, 0xcf, 0x6d, 0xa0, 0x1f, 0x51, 0x94, 0xf8, 0x49, 0xcb, 0x74, 0x36,
    0x14, 0xbc, 0x15, 0xdd, 0xdb, 0x89, 0x2f, 0xdd, 0x8f, 0xa0, 0x5d, 0x7c, 0xf5, 0x12, 0xeb,
    0x9f, 0x9e, 0x38, 0xa4, 0x47, 0xcc, 0xb3, 0x96, 0xd9, 0xbe, 0x9c, 0x25, 0xab, 0x03, 0x7e,
    0x33, 0x0f, 0x95, 0x81, 0x0d, 0xfd, 0x16, 0xe0, 0x88, 0xbe, 0x37, 0xf0, 0x6c, 0x5d, 0xd0,
    0x31, 0x9b, 0x32, 0x2b, 0x5d, 0x17, 0x65, 0x93, 0x98, 0x60, 0xbc, 0x6e, 0x8f, 0xb1, 0xa8,
    0x3c, 0x1e, 0xd9, 0x1c, 0xf3, 0xa9, 0x26, 0x42, 0xf9, 0x64, 0x1d, 0xc2, 0xe7, 0x92, 0xf6,
    0xf4, 0x1e, 0x5a, 0xaa, 0x19, 0x52, 0x5d, 0xaf, 0xe8, 0xa2, 0xf7, 0x60, 0xa0, 0xf6, 0x8d,
    0xf0, 0x89, 0xf5, 0x6e, 0xe0, 0x0a, 0x05, 0x01, 0x95, 0xc9, 0x8b, 0x20, 0x0a, 0xba, 0x5a,
    0xfc, 0x9a, 0x2c, 0x3c, 0xbd, 0xc3, 0xb7, 0xc9, 0x5d, 0x78, 0x25, 0x05, 0x3f, 0x56, 0x14,
    0x9b, 0x0c, 0xda, 0xfb, 0x3a, 0x48, 0xfe, 0x97, 0x69, 0x5e, 0xca, 0x10, 0x86, 0xf7, 0x4e,
    0x96, 0x04, 0x08, 0x4d, 0xec, 0xb0, 0xbe, 0x5d, 0xdc, 0x3b, 0x8e, 0x4f, 0xc1, 0xfd, 0x9a,
    0x36, 0x34, 0x9a, 0x4c, 0x54, 0x7e, 0x17, 0x03, 0x48, 0x95, 0x08, 0x11, 0x1c, 0x07, 0x6f,
    0x85, 0x08, 0x7e, 0x5d, 0x4d, 0xc4, 0x9d, 0xdb, 0xfb, 0xae, 0xce, 0xb2, 0xd1, 0xb3, 0xb8,
    0x83, 0x6c, 0x1d, 0xb2, 0xb3, 0x79, 0xf1, 0xd8, 0x70, 0x99, 0x7e, 0xf0, 0x13, 0x02, 0xce,
    0x5e, 0xdd, 0x51, 0xd3, 0xdf, 0x36, 0x81, 0xa1, 0x1b, 0x78, 0x2f, 0x71, 0xb3, 0xf1, 0x59,
    0x4c, 0x46, 0x18, 0x28, 0xab, 0x85, 0xd2, 0x60, 0x56, 0x5a
];

#[test]
fn certificate_subject_is_summarized() {
    assert_eq!(describe_certificate(&ED25519_CERT), Some("SSL: CN=www.example.com".to_string()));
    assert_eq!(describe_certificate(&IGC_A_CERT), Some("SSL: CN=IGC/A, O=PM/SGDN".to_string()));
}

#[test]
fn garbage_is_not_a_certificate() {
    assert_eq!(describe_certificate(&[0x30, 0x03, 0x02, 0x01, 0x00]), None);
    assert_eq!(describe_certificate(&[]), None);
}
