use leptos_config::AddressParseError;
use leptos_config::RenderOptions;
use leptos_config::RustEnv;
use leptos_config::SocketAddress;
use leptos_config::snapshot_file_name;
use leptos_config::u32_to_string;

fn addr(oct1: u8, oct2: u8, oct3: u8, oct4: u8, port: u16) -> SocketAddress {
    SocketAddress { oct1, oct2, oct3, oct4, port }
}

#[test]
fn classifies_dev_spellings() {
    for input in ["dev", "DEV", "Dev", "dEv", "development", "DEVELOPMENT", "Development"] {
        assert_eq!(RustEnv::from_str(input), Ok(RustEnv::DEV), "input: {}", input);
    }
}

#[test]
fn classifies_prod_spellings() {
    for input in ["prod", "PROD", "Prod", "production", "PRODUCTION", "Production"] {
        assert_eq!(RustEnv::from_str(input), Ok(RustEnv::PROD), "input: {}", input);
    }
}

#[test]
fn unrecognized_input_defaults_to_prod() {
    for input in ["", "staging", "devel", "prod ", " dev", "producti0n", "développement"] {
        assert_eq!(RustEnv::from_str(input), Ok(RustEnv::PROD), "input: {}", input);
    }
}

#[test]
fn lookup_results_classify_like_strings() {
    assert_eq!(RustEnv::from_lookup(Some("dev")), RustEnv::DEV);
    assert_eq!(RustEnv::from_lookup(Some("PRODUCTION")), RustEnv::PROD);
    assert_eq!(RustEnv::from_lookup(Some("nonsense")), RustEnv::PROD);
}

#[test]
fn absent_lookup_defaults_to_prod() {
    assert_eq!(RustEnv::from_lookup(None), RustEnv::PROD);
}

#[test]
fn default_environment_is_prod() {
    assert_eq!(RustEnv::default(), RustEnv::PROD);
}

#[test]
fn default_address_is_loopback_3000() {
    assert_eq!(SocketAddress::default(), addr(127, 0, 0, 1, 3000));
}

#[test]
fn parses_explicit_address() {
    assert_eq!(SocketAddress::parse("0.0.0.0:8080"), Ok(addr(0, 0, 0, 0, 8080)));
    assert_eq!(SocketAddress::parse("127.0.0.1:3000"), Ok(addr(127, 0, 0, 1, 3000)));
    assert_eq!(SocketAddress::parse("255.255.255.255:65535"), Ok(addr(255, 255, 255, 255, 65535)));
    assert_eq!(SocketAddress::parse("10.20.30.40:1"), Ok(addr(10, 20, 30, 40, 1)));
    assert_eq!(SocketAddress::parse("0.0.0.0:0"), Ok(addr(0, 0, 0, 0, 0)));
}

#[test]
fn rejects_malformed_addresses() {
    for input in [
        "",
        "1.2.3:80",
        "1.2.3.4",
        "1.2.3.4:",
        ":80",
        "1..2.3:80",
        "1.2.3.4.5:80",
        "256.0.0.1:80",
        "01.2.3.4:80",
        "1.2.3.04:80",
        "1.2.3.4:65536",
        "1.2.3.4:080",
        "1.2.3.4:80x",
        "a.b.c.d:e",
        "127.0.0.1:3000 ",
        "-1.2.3.4:80",
    ] {
        let parsed = SocketAddress::parse(input);
        assert!(matches!(parsed, Err(_)), "input: {}", input);
        match parsed {
            Err(AddressParseError { input: offending }) => assert_eq!(offending, input),
            Ok(_) => unreachable!(),
        }
    }
}

#[test]
fn renders_address_text() {
    assert_eq!(addr(127, 0, 0, 1, 3000).to_text(), "127.0.0.1:3000");
    assert_eq!(addr(0, 0, 0, 0, 0).to_text(), "0.0.0.0:0");
    assert_eq!(addr(255, 255, 255, 255, 65535).to_text(), "255.255.255.255:65535");
}

#[test]
fn parse_inverts_rendering() {
    for text in ["0.0.0.0:8080", "127.0.0.1:3000", "9.90.200.255:65535"] {
        let parsed = SocketAddress::parse(text).unwrap();
        assert_eq!(parsed.to_text(), text);
    }
}

#[test]
fn renders_decimal_numbers() {
    assert_eq!(u32_to_string(0), "0");
    assert_eq!(u32_to_string(7), "7");
    assert_eq!(u32_to_string(3001), "3001");
    assert_eq!(u32_to_string(4294967295), "4294967295");
}

#[test]
fn builder_defaults() {
    let options = RenderOptions::builder(String::from("/pkg/app")).build();
    assert_eq!(options.pkg_path, "/pkg/app");
    assert_eq!(options.environment, RustEnv::PROD);
    assert_eq!(options.socket_address, addr(127, 0, 0, 1, 3000));
    assert_eq!(options.reload_port, 3001);
}

#[test]
fn builder_with_explicit_address_string() {
    let socket_address = SocketAddress::parse("0.0.0.0:8080").unwrap();
    let options = RenderOptions::builder(String::from("/pkg/app"))
        .socket_address(socket_address)
        .build();
    assert_eq!(options.socket_address, addr(0, 0, 0, 0, 8080));
}

#[test]
fn builder_sets_every_field() {
    let options = RenderOptions::builder(String::from("/pkg/site"))
        .environment(RustEnv::DEV)
        .socket_address(addr(10, 0, 0, 2, 8000))
        .reload_port(3100)
        .build();
    assert_eq!(options.pkg_path, "/pkg/site");
    assert_eq!(options.environment, RustEnv::DEV);
    assert_eq!(options.socket_address, addr(10, 0, 0, 2, 8000));
    assert_eq!(options.reload_port, 3100);
}

#[test]
fn snapshot_end_to_end() {
    let options = RenderOptions::builder(String::from("/pkg/app"))
        .environment_str("development")
        .build();
    assert_eq!(options.environment, RustEnv::DEV);
    let text = options.snapshot_text();
    let expected = "// This file is auto-generated. Changing it will have no effect on leptos. Change these by changing RenderOptions and rerunning\nRenderOptions {\n    pkg-path \"/pkg/app\"\n    environment \"DEV\"\n    socket-address \"127.0.0.1:3000\"\n    reload-port 3001\n}\n";
    assert_eq!(text, expected);
    assert!(text.contains("    environment \"DEV\"\n"));
    assert!(text.contains("    socket-address \"127.0.0.1:3000\"\n"));
}

#[test]
fn snapshot_is_deterministic() {
    let options = RenderOptions::builder(String::from("/pkg/app"))
        .environment(RustEnv::DEV)
        .reload_port(3100)
        .build();
    let first = options.snapshot_text();
    let second = options.snapshot_text();
    assert_eq!(first, second);
}

#[test]
fn snapshot_embeds_pkg_path_verbatim() {
    let options = RenderOptions::builder(String::from("/pkg/my-app_v2.1")).build();
    let text = options.snapshot_text();
    assert!(text.contains("    pkg-path \"/pkg/my-app_v2.1\"\n"));
}

#[test]
fn snapshot_file_is_well_known() {
    assert_eq!(snapshot_file_name(), "./.leptos.kdl");
}
