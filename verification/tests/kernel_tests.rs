use pulsegpu::kernel::gpu_parallel;
use pulsegpu::kernel::GpuParallelInput;
use pulsegpu::kernel::ParseError;

fn compile(src: &str) -> Result<pulsegpu::kernel::KernelLaunchIR, ParseError> {
    gpu_parallel(&src.as_bytes().to_vec())
}

#[test]
fn compiles_simple_launch() {
    let ir = compile("threads=8, i { x += 1; }").unwrap();
    assert_eq!(ir.threads, 8);
    assert_eq!(ir.block_size, 0);
    assert_eq!(ir.body, b"x += 1 ;".to_vec());
}

#[test]
fn compiles_block_clause_and_empty_body() {
    let ir = compile("threads=4, block=16, i {}").unwrap();
    assert_eq!(ir.threads, 4);
    assert_eq!(ir.block_size, 16);
    assert_eq!(ir.body, Vec::<u8>::new());
}

#[test]
fn missing_threads_key_fails() {
    assert!(matches!(compile("8, i { }"), Err(ParseError::MissingThreads)));
    assert!(matches!(compile("count=8, i { }"), Err(ParseError::MissingThreads)));
    assert!(matches!(compile(""), Err(ParseError::MissingThreads)));
}

#[test]
fn non_integer_thread_count_fails() {
    assert!(matches!(compile("threads=abc, i { }"), Err(ParseError::InvalidThreadCount)));
    assert!(matches!(compile("threads=, i { }"), Err(ParseError::InvalidThreadCount)));
}

#[test]
fn oversized_thread_count_fails() {
    assert!(matches!(compile("threads=4294967296, i { }"), Err(ParseError::InvalidThreadCount)));
    let ir = compile("threads=4294967295, i { }").unwrap();
    assert_eq!(ir.threads, u32::MAX);
}

#[test]
fn unbalanced_braces_fail() {
    assert!(matches!(compile("threads=8, i { x += 1;"), Err(ParseError::UnbalancedBraces)));
    assert!(matches!(compile("threads=8, i { if x { y; }"), Err(ParseError::UnbalancedBraces)));
}

#[test]
fn trailing_input_fails() {
    assert!(matches!(compile("threads=8, i { } x"), Err(ParseError::TrailingInput)));
    assert!(matches!(compile("threads=8, i { } }"), Err(ParseError::TrailingInput)));
}

#[test]
fn missing_equals_fails() {
    assert!(matches!(compile("threads 8, i { }"), Err(ParseError::ExpectedEquals)));
}

#[test]
fn missing_comma_fails() {
    assert!(matches!(compile("threads=8 i { }"), Err(ParseError::ExpectedComma)));
}

#[test]
fn missing_binder_fails() {
    assert!(matches!(compile("threads=8, 9 { }"), Err(ParseError::MissingBinder)));
    assert!(matches!(compile("threads=8,"), Err(ParseError::MissingBinder)));
}

#[test]
fn missing_open_brace_fails() {
    assert!(matches!(compile("threads=8, i x"), Err(ParseError::ExpectedOpenBrace)));
}

#[test]
fn invalid_block_size_fails() {
    assert!(matches!(compile("threads=8, block=x, i { }"), Err(ParseError::InvalidBlockSize)));
    assert!(matches!(
        compile("threads=8, block=4294967296, i { }"),
        Err(ParseError::InvalidBlockSize)
    ));
}

#[test]
fn parse_records_binder_and_optional_block() {
    let p = GpuParallelInput::parse(&b"threads=8, idx { }".to_vec()).unwrap();
    assert_eq!(p.threads, 8);
    assert_eq!(p.block_size, None);
    assert_eq!(p.ident, b"idx".to_vec());

    let p = GpuParallelInput::parse(&b"threads=4, block=16, i { }".to_vec()).unwrap();
    assert_eq!(p.block_size, Some(16));
    assert_eq!(p.ident, b"i".to_vec());
}

#[test]
fn binder_may_be_named_block() {
    let p = GpuParallelInput::parse(&b"threads=2, block { }".to_vec()).unwrap();
    assert_eq!(p.block_size, None);
    assert_eq!(p.ident, b"block".to_vec());
}

#[test]
fn body_keeps_nested_braces() {
    let ir = compile("threads=2, i { if x { y; } }").unwrap();
    assert_eq!(ir.body, b"if x { y ; }".to_vec());
}

#[test]
fn body_whitespace_is_normalized() {
    let ir = compile("threads=2, i {   a+=b ;\n  c   }").unwrap();
    assert_eq!(ir.body, b"a += b ; c".to_vec());
}

#[test]
fn zero_threads_is_syntactically_accepted() {
    let ir = compile("threads=0, i { }").unwrap();
    assert_eq!(ir.threads, 0);
}

#[test]
fn descriptor_whitespace_is_flexible() {
    let ir = compile("  threads = 08 ,\n block = 2 , i {}").unwrap();
    assert_eq!(ir.threads, 8);
    assert_eq!(ir.block_size, 2);
}
