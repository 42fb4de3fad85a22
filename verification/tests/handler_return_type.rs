use cell_sdk::error::CellError;

#[derive(Debug, Clone)]
struct TestResponse {
    output: u64,
}

#[test]
fn test_extract_ok_type_pattern() {
    let test_cases = [
        ("Result<u64>", "u64"),
        ("Result<String>", "String"),
        ("Result<MyStruct>", "MyStruct"),
        ("u64", "u64"),
    ];

    for (input, expected) in &test_cases {
        let extracted = if input.starts_with("Result<") && input.ends_with(">") {
            &input[7..input.len() - 1]
        } else {
            input
        };

        assert_eq!(extracted, *expected, "Extracted {} from {}", extracted, input);
    }
}

#[test]
fn test_response_enum_structure() {
    let response = TestResponse { output: 42 };

    enum SimulatedResponse {
        TestMethod(TestResponse),
    }

    let variant = SimulatedResponse::TestMethod(response);

    match variant {
        SimulatedResponse::TestMethod(r) => {
            assert_eq!(r.output, 42);
        }
    }
}

#[test]
fn handler_failure_maps_to_serialization_failure_code() {
    // A failed handler is reported as a serialization failure, code 201.
    let e = CellError::SerializationFailure;
    assert_eq!(e.code(), 201);
}
