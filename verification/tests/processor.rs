use language_processor_unit::assembler::Assembler;
use language_processor_unit::config::Config;
use language_processor_unit::exception::Exception;
use language_processor_unit::processor::decoder::Decoder;
use language_processor_unit::processor::executor::Request;
use language_processor_unit::processor::instruction::{BranchType, Instruction};
use language_processor_unit::processor::memory::Memory;
use language_processor_unit::processor::registers::{ContextMessage, Registers, Value};
use language_processor_unit::processor::Processor;

fn config() -> Config {
    Config {
        text_model: "text".to_string(),
        embedding_model: "embed".to_string(),
        debug_build: false,
        debug_run: false,
        debug_chat: false,
    }
}

fn processor_for(source: &str) -> Processor {
    let mut assembler = Assembler::new(source.to_string());
    let bytes = assembler.assemble().unwrap();
    let mut processor = Processor::new(config());
    processor.load(&bytes).unwrap();
    processor
}

/// Runs until the program ends or asks for outside work.
fn run_until_request(processor: &mut Processor) -> Option<Request> {
    loop {
        match processor.step().unwrap() {
            None => return None,
            Some(Request::Proceed) => continue,
            Some(other) => return Some(other),
        }
    }
}

fn printed_line(processor: &mut Processor) -> String {
    match run_until_request(processor) {
        Some(Request::PrintLine { text }) => text,
        other => panic!("expected a printed line, got {:?}", other),
    }
}

#[test]
fn run_arithmetic_and_print() {
    let mut p = processor_for("LI X1, 5\nADDI X1, 3\nPLN X1\nEXIT");
    assert_eq!(printed_line(&mut p), "8");
    assert!(run_until_request(&mut p).is_none());
}

#[test]
fn run_branch_loop() {
    let source = "LI X1, 3\nLI X2, 0\nLOOP:\nSUBI X1, 1\nBNE X1, X2, LOOP\nPLN X1\nEXIT";
    let mut p = processor_for(source);
    assert_eq!(printed_line(&mut p), "0");
    assert!(run_until_request(&mut p).is_none());
}

#[test]
fn run_branch_comparisons() {
    let source = "LI X1, 2\nLI X2, 7\nBLT X1, X2, LESS\nLS X3, \"no\"\nPLN X3\nEXIT\nLESS:\nLS X3, \"yes\"\nPLN X3\nBGE X1, X2, LESS\nBLE X1, X2, DONE\nPLN X3\nDONE:\nEXIT";
    let mut p = processor_for(source);
    assert_eq!(printed_line(&mut p), "yes");
    assert!(run_until_request(&mut p).is_none());
}

#[test]
fn run_register_zero_reads_zero() {
    let mut p = processor_for("LI X1, 0\nBEQ X0, X1, ZERO\nEXIT\nZERO:\nLS X2, \"zero\"\nPLN X2");
    assert_eq!(printed_line(&mut p), "zero");
}

#[test]
fn run_writing_register_zero_fails() {
    let mut p = processor_for("LI X0, 5");
    assert!(matches!(p.step(), Err(Exception::Processor(_))));
}

#[test]
fn run_put_and_move() {
    let mut p = processor_for("LS X1, \"abc\"\nMV X2, X1\nPUT X2\nPUT X9");
    match run_until_request(&mut p) {
        Some(Request::Print { text }) => assert_eq!(text, "abc"),
        other => panic!("unexpected {:?}", other),
    }
    match run_until_request(&mut p) {
        Some(Request::Print { text }) => assert_eq!(text, ""),
        other => panic!("unexpected {:?}", other),
    }
}

#[test]
fn run_context_push_then_pop() {
    let mut p = processor_for("LS X1, \"hello\"\nPSH C1, X1, \"user\"\nPOP X2, C1\nPLN X2\nPCX C1");
    assert_eq!(printed_line(&mut p), "hello");
    match run_until_request(&mut p) {
        Some(Request::PrintContext { messages }) => assert!(messages.is_empty()),
        other => panic!("unexpected {:?}", other),
    }
}

#[test]
fn run_context_push_number_and_move() {
    let mut p = processor_for("LI X1, 42\nPSH C2, X1, \"assistant\"\nMVC C3, C2\nDRP C2\nPCX C3\nPCX C2");
    match run_until_request(&mut p) {
        Some(Request::PrintContext { messages }) => {
            assert_eq!(messages.len(), 1);
            assert_eq!(messages[0].role, "assistant");
            assert_eq!(messages[0].content, "42");
        }
        other => panic!("unexpected {:?}", other),
    }
    match run_until_request(&mut p) {
        Some(Request::PrintContext { messages }) => assert!(messages.is_empty()),
        other => panic!("unexpected {:?}", other),
    }
}

#[test]
fn run_pop_from_empty_context_fails() {
    let mut p = processor_for("POP X1, C1");
    assert!(matches!(p.step(), Err(Exception::Processor(_))));
}

#[test]
fn run_push_of_empty_register_fails() {
    let mut p = processor_for("PSH C1, X4, \"user\"");
    assert!(matches!(p.step(), Err(Exception::Processor(_))));
}

#[test]
fn run_add_overflow_fails() {
    let mut p = processor_for("LI X1, 4294967295\nADDI X1, 1");
    assert!(p.step().is_ok());
    assert!(matches!(p.step(), Err(Exception::Processor(_))));
}

#[test]
fn run_subtract_underflow_fails() {
    let mut p = processor_for("LI X1, 1\nSUBI X1, 2");
    assert!(p.step().is_ok());
    assert!(matches!(p.step(), Err(Exception::Processor(_))));
}

#[test]
fn run_add_then_subtract_restores_the_value() {
    let mut p = processor_for("LI X1, 40\nADDI X1, 9\nSUBI X1, 9\nPLN X1");
    assert_eq!(printed_line(&mut p), "40");
}

#[test]
fn run_branch_on_text_fails() {
    let mut p = processor_for("LS X1, \"a\"\nBEQ X1, X0, END\nEND:\nEXIT");
    assert!(p.step().is_ok());
    assert!(matches!(p.step(), Err(Exception::Processor(_))));
}

#[test]
fn run_lines() {
    let mut p = processor_for("LS X1, \"a\nb\r\nc\"\nCLN X2, X1\nLI X3, 1\nRLN X4, X1, X3\nPLN X2\nPLN X4");
    assert_eq!(printed_line(&mut p), "3");
    assert_eq!(printed_line(&mut p), "b");
}

#[test]
fn run_read_line_out_of_range_fails() {
    let mut p = processor_for("LS X1, \"a\"\nLI X2, 1\nRLN X3, X1, X2");
    assert!(p.step().is_ok());
    assert!(p.step().is_ok());
    assert!(matches!(p.step(), Err(Exception::Processor(_))));
}

#[test]
fn run_load_content_request_and_completion() {
    let mut p = processor_for("LC X1, \"notes.txt\"\nPLN X1");
    match run_until_request(&mut p) {
        Some(Request::LoadContent { destination_register, path }) => {
            assert_eq!(destination_register, 1);
            assert_eq!(path, "notes.txt");
        }
        other => panic!("unexpected {:?}", other),
    }
    p.complete(1, Value::Text("file text".to_string())).unwrap();
    assert_eq!(printed_line(&mut p), "file text");
}

#[test]
fn run_inference_request() {
    let source = "LS X1, \"Say hi\"\nLS X2, \"Earlier\"\nPSH C1, X2, \"user\"\nINF X3, X1, C1\nPLN X3";
    let mut p = processor_for(source);
    match run_until_request(&mut p) {
        Some(Request::Inference { destination_register, messages }) => {
            assert_eq!(destination_register, 3);
            assert_eq!(messages.len(), 2);
            assert_eq!(messages[0].role, "system");
            assert_eq!(messages[1].role, "user");
            assert_eq!(messages[1].content, "Earlier\nSay hi");
        }
        other => panic!("unexpected {:?}", other),
    }
    p.complete(3, Value::Text("hi".to_string())).unwrap();
    assert_eq!(printed_line(&mut p), "hi");
}

#[test]
fn run_inference_with_invalid_history_fails() {
    let source = "LS X1, \"q\"\nLS X2, \"a\"\nPSH C1, X2, \"assistant\"\nINF X3, X1, C1";
    let mut p = processor_for(source);
    assert!(p.step().is_ok());
    assert!(p.step().is_ok());
    assert!(p.step().is_ok());
    assert!(matches!(p.step(), Err(Exception::Processor(_))));
}

#[test]
fn run_evaluate_request() {
    let mut p = processor_for("LS X1, \"Is it day?\"\nEVAL X2, X1, C0\nPLN X2");
    match run_until_request(&mut p) {
        Some(Request::Evaluate { destination_register, messages }) => {
            assert_eq!(destination_register, 2);
            assert_eq!(messages.len(), 2);
            assert_eq!(
                messages[1].content,
                "Is it day?\nAnswer with exactly one word: YES or NO, TRUE or FALSE.\n\nAnswer only:"
            );
        }
        other => panic!("unexpected {:?}", other),
    }
    p.complete(2, Value::Number(1)).unwrap();
    assert_eq!(printed_line(&mut p), "1");
}

#[test]
fn run_similarity_request() {
    let mut p = processor_for("LS X1, \"cat\"\nLS X2, \"dog\"\nSIM X3, X1, X2");
    match run_until_request(&mut p) {
        Some(Request::Similarity { destination_register, first, second }) => {
            assert_eq!(destination_register, 3);
            assert_eq!(first, "cat");
            assert_eq!(second, "dog");
        }
        other => panic!("unexpected {:?}", other),
    }
    assert!(p.complete(0, Value::Number(5)).is_err());
}

#[test]
fn run_exit_halts_before_the_rest() {
    let mut p = processor_for("EXIT\nPLN X1");
    assert!(matches!(p.step(), Ok(Some(Request::Proceed))));
    assert!(matches!(p.step(), Ok(None)));
}

#[test]
fn load_rejects_partial_words() {
    let mut p = Processor::new(config());
    assert!(matches!(p.load(&[0, 0, 0]), Err(Exception::Processor(_))));
}

#[test]
fn load_rejects_missing_header() {
    let mut p = Processor::new(config());
    assert!(matches!(p.load(&[0, 0, 0, 2]), Err(Exception::Processor(_))));
}

#[test]
fn load_empty_program_halts() {
    let mut p = Processor::new(config());
    p.load(&[0, 0, 0, 2, 0, 0, 0, 2]).unwrap();
    assert!(matches!(p.step(), Ok(None)));
    assert_eq!(p.config().text_model, "text");
}

#[test]
fn step_past_the_memory_fails() {
    let mut p = Processor::new(config());
    p.load(&[0, 0, 0, 2, 0, 0, 0, 9]).unwrap();
    assert!(matches!(p.step(), Err(Exception::Processor(_))));
}

#[test]
fn step_unknown_opcode_fails() {
    let mut p = Processor::new(config());
    let mut bytes = vec![0, 0, 0, 2, 0, 0, 0, 6];
    bytes.extend_from_slice(&[0, 0, 0, 0x77, 0, 0, 0, 0, 0, 0, 0, 0, 0, 0, 0, 0]);
    p.load(&bytes).unwrap();
    assert!(matches!(p.step(), Err(Exception::Processor(_))));
}

#[test]
fn decoder_reads_strings_from_the_data_section() {
    let mut memory = Memory::new();
    memory.load(&[
        [0, 0, 0, 0],
        [0, 0, 0, 7],
        [0, 0, 0, 104],
        [0, 0, 0, 105],
        [0, 0, 0, 0],
    ]);
    let mut registers = Registers::new();
    registers.set_data_section_pointer(2);
    let decoded = Decoder::decode(&memory, &registers, [[0, 0, 0, 0], [0, 0, 0, 7], [0, 0, 0, 0], [0, 0, 0, 0]]).unwrap();
    match decoded {
        Instruction::LoadString(i) => {
            assert_eq!(i.destination_register, 7);
            assert_eq!(i.value, "hi");
        }
        other => panic!("unexpected {:?}", other),
    }
}

#[test]
fn decoder_rejects_unterminated_string() {
    let mut memory = Memory::new();
    memory.load(&[[0, 0, 0, 104]]);
    let registers = Registers::new();
    let result = Decoder::decode(&memory, &registers, [[0, 0, 0, 1], [0, 0, 0, 1], [0, 0, 0, 0], [0, 0, 0, 0]]);
    assert!(matches!(result, Err(Exception::Decoder(_))));
}

#[test]
fn decoder_rejects_no_op() {
    let memory = Memory::new();
    let registers = Registers::new();
    let result = Decoder::decode(&memory, &registers, [[0, 0, 0, 0xFF], [0; 4], [0; 4], [0; 4]]);
    assert!(matches!(result, Err(Exception::Decoder(_))));
}

#[test]
fn decoder_reads_branches() {
    let memory = Memory::new();
    let registers = Registers::new();
    let result = Decoder::decode(&memory, &registers, [[0, 0, 0, 0x15], [0, 0, 0, 1], [0, 0, 0, 2], [0, 0, 0, 30]]).unwrap();
    match result {
        Instruction::Branch(b) => {
            assert!(matches!(b.branch_type, BranchType::NotEqual));
            assert_eq!(b.source_register_1, 1);
            assert_eq!(b.source_register_2, 2);
            assert_eq!(b.instruction_pointer_jump_index, 30);
        }
        other => panic!("unexpected {:?}", other),
    }
}

#[test]
fn memory_read_out_of_range() {
    let mut memory = Memory::new();
    memory.load(&[[1, 2, 3, 4]]);
    assert_eq!(memory.length(), 1);
    assert_eq!(*memory.read(0).unwrap(), [1, 2, 3, 4]);
    assert!(matches!(memory.read(1), Err(Exception::Memory(_))));
}

#[test]
fn registers_start_with_zero_in_register_zero() {
    let r = Registers::new();
    assert!(matches!(r.get_register(0), Ok(Value::Number(0))));
    assert!(matches!(r.get_register(32), Ok(Value::Empty)));
    assert!(matches!(r.get_register(33), Err(Exception::Register(_))));
    assert!(r.get_context(0).unwrap().is_empty());
    assert_eq!(r.get_instruction_pointer(), 0);
    assert_eq!(r.get_data_section_pointer(), 0);
    assert!(r.get_instruction().is_none());
}

#[test]
fn registers_write_then_read() {
    let mut r = Registers::new();
    r.set_register(5, &Value::Text("x".to_string())).unwrap();
    match r.get_register(5).unwrap() {
        Value::Text(t) => assert_eq!(t, "x"),
        other => panic!("unexpected {:?}", other),
    }
    assert!(matches!(r.set_register(0, &Value::Number(1)), Err(Exception::Register(_))));
    assert!(matches!(r.set_register(33, &Value::Number(1)), Err(Exception::Register(_))));
    assert!(matches!(r.get_register(0), Ok(Value::Number(0))));
}

#[test]
fn registers_context_stack_is_last_in_first_out() {
    let mut r = Registers::new();
    r.push_context(ContextMessage::new("user", "one"), 3).unwrap();
    r.push_context(ContextMessage::new("assistant", "two"), 3).unwrap();
    assert_eq!(r.get_context(3).unwrap().len(), 2);
    assert_eq!(r.pop_context(3).unwrap().content, "two");
    assert_eq!(r.pop_context(3).unwrap().content, "one");
    assert!(matches!(r.pop_context(3), Err(Exception::Register(_))));
    assert!(matches!(r.push_context(ContextMessage::new("user", "x"), 0), Err(Exception::Register(_))));
    assert!(matches!(r.pop_context(0), Err(Exception::Register(_))));
}

#[test]
fn registers_set_context_copies() {
    let mut r = Registers::new();
    let messages = vec![ContextMessage::new("user", "a"), ContextMessage::new("user", "b")];
    r.set_context(7, &messages).unwrap();
    let stored = r.get_context(7).unwrap();
    assert_eq!(stored.len(), 2);
    assert_eq!(stored[1].content, "b");
    assert!(matches!(r.set_context(0, &messages), Err(Exception::Register(_))));
}

#[test]
fn registers_pointers() {
    let mut r = Registers::new();
    r.set_instruction_pointer(6);
    r.advance_instruction_pointer(4);
    assert_eq!(r.get_instruction_pointer(), 10);
    r.set_data_section_pointer(12);
    assert_eq!(r.get_data_section_pointer(), 12);
    r.set_instruction(Some([[1, 0, 0, 0]; 4]));
    assert_eq!(r.get_instruction(), Some([[1, 0, 0, 0]; 4]));
}

#[test]
fn value_display() {
    assert_eq!(Value::Number(120).to_display_string(), "120");
    assert_eq!(Value::Text("t".to_string()).to_display_string(), "t");
    assert_eq!(Value::Empty.to_display_string(), "");
    assert!(matches!(Value::Number(3).duplicate(), Value::Number(3)));
}

#[test]
fn requests_into_register_zero_fail_in_the_executor() {
    for source in [
        "LC X0, \"notes.txt\"",
        "LS X1, \"q\"\nINF X0, X1, C0",
        "LS X1, \"q\"\nEVAL X0, X1, C0",
        "LS X1, \"a\"\nSIM X0, X1, X1",
    ] {
        let mut p = processor_for(source);
        let mut result = p.step();
        while let Ok(Some(Request::Proceed)) = result {
            result = p.step();
        }
        match result {
            Err(Exception::Processor(base)) => {
                let cause = base.inner_exception.expect("a cause");
                match *cause {
                    Exception::ControlUnit(cu) => {
                        let inner = cu.inner_exception.expect("a cause");
                        assert!(matches!(*inner, Exception::Executor(_)));
                    }
                    other => panic!("unexpected {:?}", other),
                }
            }
            other => panic!("unexpected {:?}", other),
        }
    }
}
