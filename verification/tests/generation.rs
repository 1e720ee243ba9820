use randfile::{DataType, generate_lines, header_line, i32_to_dec, millis_to_dec, u32_to_dec};

#[test]
fn unsigned_rendering_is_plain_decimal() {
    assert_eq!(u32_to_dec(0), "0");
    assert_eq!(u32_to_dec(7), "7");
    assert_eq!(u32_to_dec(1234), "1234");
    assert_eq!(u32_to_dec(4294967295), "4294967295");
}

#[test]
fn signed_rendering_is_plain_decimal() {
    assert_eq!(i32_to_dec(-842), "-842");
    assert_eq!(i32_to_dec(0), "0");
    assert_eq!(i32_to_dec(1000), "1000");
    assert_eq!(i32_to_dec(-1000), "-1000");
}

#[test]
fn fixed_point_rendering_has_three_digits() {
    assert_eq!(millis_to_dec(317042), "317.042");
    assert_eq!(millis_to_dec(-1000000), "-1000.000");
    assert_eq!(millis_to_dec(1000000), "1000.000");
    assert_eq!(millis_to_dec(5), "0.005");
    assert_eq!(millis_to_dec(-5), "-0.005");
    assert_eq!(millis_to_dec(0), "0.000");
    assert_eq!(millis_to_dec(12034), "12.034");
}

#[test]
fn header_names_the_count() {
    assert_eq!(header_line(0), "Count: 0");
    assert_eq!(header_line(12), "Count: 12");
}

#[test]
fn integer_file_has_header_and_values_in_range() {
    let mut rng = rand::thread_rng();
    let lines = generate_lines(&mut rng, DataType::Integer, 50);
    assert_eq!(lines.len(), 51);
    assert_eq!(lines[0], "Count: 50");
    for line in &lines[1..] {
        let v: i32 = line.parse().expect("data line must be an integer");
        assert!((-1000..=1000).contains(&v), "value {} out of range", v);
    }
}

#[test]
fn float_file_has_three_fractional_digits_in_range() {
    let mut rng = rand::thread_rng();
    let lines = generate_lines(&mut rng, DataType::Float, 40);
    assert_eq!(lines.len(), 41);
    assert_eq!(lines[0], "Count: 40");
    for line in &lines[1..] {
        let dot = line.find('.').expect("data line must have a point");
        assert_eq!(line.len() - dot - 1, 3, "line {} must have 3 fractional digits", line);
        let v: f64 = line.parse().expect("data line must be a decimal");
        assert!((-1000.0..=1000.0).contains(&v), "value {} out of range", v);
        assert_eq!(*line, format!("{:.3}", v), "line {} must be fixed-point", line);
    }
}

#[test]
fn zero_count_gives_header_only() {
    let mut rng = rand::thread_rng();
    let lines = generate_lines(&mut rng, DataType::Integer, 0);
    assert_eq!(lines.len(), 1);
    assert_eq!(lines[0], "Count: 0");
    let lines = generate_lines(&mut rng, DataType::Float, 0);
    assert_eq!(lines.len(), 1);
    assert_eq!(lines[0], "Count: 0");
}
