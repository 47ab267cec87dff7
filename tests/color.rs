use tilemap::math::color::{Color, ColorError};

#[test]
fn test_from_hex_empty_string() {
    assert!(Color::from_hex("").is_err());
}

#[test]
fn test_from_hex_invalid_start() {
    assert!(Color::from_hex("FFA500").is_err());
}

#[test]
fn test_from_hex_part() {
    assert!(Color::from_hex("#").is_err());
    assert!(Color::from_hex("#FF").is_err());
    assert!(Color::from_hex("#FFA5").is_err());
    assert!(Color::from_hex("#FFA50").is_err());
}

#[test]
fn test_from_hex_ignore_case() {
    assert_eq!(Color::from_hex("#FFA500").unwrap(), Color::orange());
    assert_eq!(Color::from_hex("#ffa500").unwrap(), Color::orange());
}

#[test]
fn test_from_hex_with_white_space() {
    assert_eq!(Color::from_hex(" #FFA500").unwrap(), Color::orange());
    assert_eq!(Color::from_hex("#FFA500 ").unwrap(), Color::orange());
}

#[test]
fn from_hex_error_kinds() {
    assert_eq!(Color::from_hex(""), Err(ColorError::MissingHash));
    assert_eq!(Color::from_hex("FFA500"), Err(ColorError::MissingHash));
    assert_eq!(Color::from_hex("#FFA5"), Err(ColorError::WrongLength));
    assert_eq!(Color::from_hex("#FFA5000"), Err(ColorError::WrongLength));
    assert_eq!(Color::from_hex("#GFA500"), Err(ColorError::InvalidRed));
    assert_eq!(Color::from_hex("#FFX500"), Err(ColorError::InvalidGreen));
    assert_eq!(Color::from_hex("#FFA5-0"), Err(ColorError::InvalidBlue));
}

#[test]
fn from_hex_trims_tabs_and_newlines() {
    assert_eq!(Color::from_hex("\t#00FF80\n"), Ok(Color::from_rgb(0, 255, 128)));
    assert_eq!(Color::from_trimmed_hex(" #00FF80"), Err(ColorError::MissingHash));
}

#[test]
fn from_hex_accepts_a_plus_sign_per_component() {
    assert_eq!(Color::from_hex("#+F+1+0"), Ok(Color::from_rgb(15, 1, 0)));
}

#[test]
fn to_hex_is_upper_case_with_two_digits() {
    assert_eq!(Color::orange().to_hex(), "#FFA500");
    assert_eq!(Color::from_rgb(1, 2, 171).to_hex(), "#0102AB");
    assert_eq!(Color::pink().to_hex(), "#FF0080");
}

#[test]
fn hex_round_trip() {
    let color = Color::from_rgb(18, 52, 86);
    assert_eq!(Color::from_hex(&color.to_hex()), Ok(color));
}

#[test]
fn gray_and_components() {
    let gray = Color::gray(42);
    assert_eq!(gray, Color::from_rgb(42, 42, 42));
    assert_eq!(Color::orange().r(), 255);
    assert_eq!(Color::orange().g(), 165);
    assert_eq!(Color::orange().b(), 0);
    assert_eq!(Color::default(), Color::pink());
}
