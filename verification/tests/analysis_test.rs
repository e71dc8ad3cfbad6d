// The performance analyzer and the listing of a chunk.
use luma::backend::jit::analysis::PerformanceAnalyzer;
use luma::backend::vm::instruction::OpCode;
use luma::frontend::ast::Expression;
use luma::frontend::ast::Statement;
use luma::frontend::compiler::Compiler;
use luma::shared::chunk::Chunk;
use luma::shared::value::Value;

#[test]
fn a_new_analyzer_knows_nothing() {
    let analyzer = PerformanceAnalyzer::new();
    assert!(!analyzer.is_hot(0));
    assert!(!analyzer.should_jit_compile(0));
    assert!(analyzer.get_hotspots().is_empty());
    assert!(analyzer.get_compilation_candidates().is_empty());
    assert!(analyzer.get_compiled_function(0).is_none());
    let statistics = PerformanceAnalyzer::default().get_statistics();
    assert_eq!(statistics.total_hotspots, 0);
    assert_eq!(statistics.hot_count, 0);
    assert_eq!(statistics.compiled_count, 0);
    assert_eq!(statistics.total_executions, 0);
    assert!(statistics.speedup_factors.is_empty());
    assert_eq!(statistics.jit_threshold, 5000);
}

#[test]
fn executions_are_counted_and_timed() {
    let mut analyzer = PerformanceAnalyzer::new();
    analyzer.record_execution(8, 100);
    analyzer.record_execution(8, 51);
    analyzer.record_execution(8, 50);
    analyzer.record_execution(3, 7);
    let spots = analyzer.get_hotspots();
    assert_eq!(spots.len(), 2);
    assert_eq!(spots[0].offset, 8);
    assert_eq!(spots[0].execution_count, 3);
    assert_eq!(spots[0].total_time, 201);
    assert_eq!(spots[0].average_time, 67);
    assert_eq!(spots[1].offset, 3);
    assert_eq!(spots[1].execution_count, 1);
    assert_eq!(spots[1].total_time, 7);
    assert_eq!(spots[1].average_time, 7);
    assert!(spots[0].last_executed <= std::time::Instant::now());
    analyzer.record_execution(1, u128::MAX);
    analyzer.record_execution(1, 5);
    let spots = analyzer.get_hotspots();
    let saturated = spots.iter().find(|spot| spot.offset == 1).unwrap();
    assert_eq!(saturated.total_time, u128::MAX);
    assert_eq!(saturated.average_time, u128::MAX / 2);
}

#[test]
fn thresholds_decide_what_is_hot() {
    let mut analyzer = PerformanceAnalyzer::new();
    analyzer.set_hot_threshold(3);
    analyzer.set_jit_threshold(5);
    for offset in 0..8usize {
        for _ in 0..offset {
            analyzer.record_execution(offset, 1);
        }
    }
    for offset in 0..8usize {
        assert_eq!(analyzer.is_hot(offset), offset >= 3);
        assert_eq!(analyzer.should_jit_compile(offset), offset >= 5);
    }
    let counts: Vec<u64> = analyzer.get_hotspots().iter().map(|spot| spot.execution_count).collect();
    assert_eq!(counts, vec![7, 6, 5, 4, 3, 2, 1]);
    let mut candidates = analyzer.get_compilation_candidates();
    candidates.sort();
    assert_eq!(candidates, vec![5, 6, 7]);

    analyzer.mark_compiled(6, 0xbeef, 1200);
    assert!(!analyzer.should_jit_compile(6));
    assert!(analyzer.is_hot(6));
    let mut candidates = analyzer.get_compilation_candidates();
    candidates.sort();
    assert_eq!(candidates, vec![5, 7]);
    let compiled = analyzer.get_compiled_function(6).unwrap();
    assert_eq!(compiled.offset, 6);
    assert_eq!(compiled.native_address, 0xbeef);
    assert_eq!(compiled.compilation_time, 1200);
    assert_eq!(f64::from_bits(compiled.speedup_factor), 1.0);

    analyzer.update_speedup(6, 2.5f64.to_bits());
    analyzer.update_speedup(7, 9.0f64.to_bits());
    assert_eq!(f64::from_bits(analyzer.get_compiled_function(6).unwrap().speedup_factor), 2.5);
    assert_eq!(analyzer.get_compiled_function(6).unwrap().native_address, 0xbeef);
    assert!(analyzer.get_compiled_function(7).is_none());
    analyzer.mark_compiled(2, 1, 1);

    let statistics = analyzer.get_statistics();
    assert_eq!(statistics.total_hotspots, 7);
    assert_eq!(statistics.hot_count, 5);
    assert_eq!(statistics.compiled_count, 2);
    assert_eq!(statistics.total_executions, 28);
    assert_eq!(statistics.jit_threshold, 5);
    let mut factors: Vec<f64> = statistics.speedup_factors.iter().map(|bits| f64::from_bits(*bits)).collect();
    factors.sort_by(|a, b| a.partial_cmp(b).unwrap());
    assert_eq!(factors, vec![1.0, 2.5]);

    analyzer.reset();
    assert!(analyzer.get_hotspots().is_empty());
    assert!(analyzer.get_compiled_function(6).is_none());
    assert_eq!(analyzer.get_statistics().jit_threshold, 5);
    analyzer.record_execution(1, 1);
    assert!(!analyzer.is_hot(1));
}

#[test]
fn a_chunk_is_listed() {
    let source = vec![
        Statement::Assignment { name: "x".to_string(), value: Expression::Literal(2.5f64.to_bits()) },
        Statement::While {
            condition: Expression::BooleanLiteral(false),
            body: vec![Statement::Show(Expression::Identifier("x".to_string()))],
        },
    ];
    let chunk = Compiler::new().compile(&source).unwrap();
    assert!(chunk.is_listable());
    let written = vec!["2.5".to_string()];
    let expected = "\
== test ==
0000    2 OpConstant          0 '2.5'
0002    | OpSetGlobal
0003    | OpNil
0004    | OpPop
0005    4 OpLoopStart
0006    | OpFalse
0007    0 OpJumpIfFalse       7 -> 15
0009    4 OpPop
0010    | OpGetGlobal
0011    | OpNil
0012    | OpPrint
0013    0 OpLoop             13 -> 5
0015    4 OpPop
0016    | OpLoopEnd
0017    | OpReturn
";
    assert_eq!(chunk.disassemble("test", &written), expected);
}

#[test]
fn listings_of_odd_chunks() {
    let mut chunk = Chunk::new();
    assert!(chunk.is_listable());
    assert_eq!(chunk.disassemble("", &vec![]), "==  ==\n");
    chunk.constants.push(Value::String("it's".to_string()));
    chunk.constants.push(Value::Number(0.5f64.to_bits()));
    chunk.write_opcode(OpCode::OpConstant, 12345);
    chunk.write_byte(0, 12345);
    chunk.write_opcode(OpCode::OpConstant, 7);
    chunk.write_byte(1, 7);
    chunk.write_opcode(OpCode::OpConstant, 7);
    chunk.write_byte(9, 8);
    chunk.write_byte(200, 8);
    chunk.write_opcode(OpCode::OpLoop, 8);
    chunk.write_byte(255, 8);
    chunk.write_opcode(OpCode::OpJump, 9);
    assert!(!chunk.is_listable());
    chunk.write_byte(255, 9);
    assert!(chunk.is_listable());
    let expected = "\
== odd ==
0000 12345 OpConstant          0 'it's'
0002    7 OpConstant          1 ''
0004    | OpConstant          9 ''
0006    | Unknown opcode 200
0007    | OpLoop              7 -> -246
0009    9 OpJump              9 -> 266
";
    assert_eq!(chunk.disassemble("odd", &vec![]), expected);
    chunk.lines.pop();
    assert!(!chunk.is_listable());
}
