//! Panic capture across the C ABI is exercised only by the C ABI probe build.

use tinyquant::abi::TinyQuantErrorKind;

#[test]
fn skipped_without_panic_probe_feature() {
    println!(
        "abi_panic_crossing skipped: the panic probe is only built with the \
         C ABI; its kind code is {}",
        TinyQuantErrorKind::Panic.code()
    );
}
