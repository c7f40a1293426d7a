use language_processor_unit::assembler::opcode::OpCode;
use language_processor_unit::assembler::scanner::Scanner;
use language_processor_unit::assembler::token::TokenType;
use language_processor_unit::assembler::Assembler;
use language_processor_unit::config::Config;
use language_processor_unit::exception::Exception;
use language_processor_unit::processor::executor::Request;
use language_processor_unit::processor::Processor;

fn words(bytes: &[u8]) -> Vec<u32> {
    bytes
        .chunks(4)
        .map(|c| u32::from_be_bytes([c[0], c[1], c[2], c[3]]))
        .collect()
}

fn assemble(source: &str) -> Result<Vec<u8>, Exception> {
    let mut assembler = Assembler::new(source.to_string());
    assembler.assemble()
}

#[test]
fn scanner_reads_an_instruction() {
    let mut scanner = Scanner::new("LI X1, 5".to_string());
    let mut kinds = Vec::new();
    loop {
        let token = scanner.scan_token();
        let kind = *token.token_type();
        kinds.push(kind);
        if kind == TokenType::Eof {
            break;
        }
    }
    assert_eq!(
        kinds,
        vec![
            TokenType::LoadImmediate,
            TokenType::Identifier,
            TokenType::Comma,
            TokenType::Number,
            TokenType::Eof
        ]
    );
}

#[test]
fn scanner_positions_and_lines() {
    let mut scanner = Scanner::new("exit\n  pln X2".to_string());
    let first = scanner.scan_token();
    assert_eq!(*first.token_type(), TokenType::Exit);
    assert_eq!(first.start(), 0);
    assert_eq!(first.end(), 4);
    assert_eq!(first.line(), 1);
    let second = scanner.scan_token();
    assert_eq!(*second.token_type(), TokenType::PrintLine);
    assert_eq!(second.line(), 2);
    assert_eq!(second.start(), 7);
    assert!(second.error().is_none());
}

#[test]
fn scanner_reads_labels_and_strings() {
    let mut scanner = Scanner::new("LOOP:\nLS X1, \"a \\\"b\\\"\"".to_string());
    assert_eq!(*scanner.scan_token().token_type(), TokenType::Label);
    assert_eq!(*scanner.scan_token().token_type(), TokenType::LoadString);
    assert_eq!(*scanner.scan_token().token_type(), TokenType::Identifier);
    assert_eq!(*scanner.scan_token().token_type(), TokenType::Comma);
    assert_eq!(*scanner.scan_token().token_type(), TokenType::String);
    assert_eq!(*scanner.scan_token().token_type(), TokenType::Eof);
}

#[test]
fn scanner_reports_an_unterminated_string() {
    let mut scanner = Scanner::new("LS X1, \"open".to_string());
    scanner.scan_token();
    scanner.scan_token();
    scanner.scan_token();
    let t = scanner.scan_token();
    assert_eq!(*t.token_type(), TokenType::Error);
    assert!(t.error().is_some());
}

#[test]
fn assemble_load_immediate_and_exit() {
    let bytes = assemble("LI X1, 5\nEXIT").unwrap();
    assert_eq!(words(&bytes), vec![2, 10, 2, 1, 5, 0, 9, 0, 0, 0]);
}

#[test]
fn assemble_places_strings_in_the_data_section() {
    let bytes = assemble("LS x1, \"hi\"\nls X2, \"a\"").unwrap();
    assert_eq!(
        words(&bytes),
        vec![2, 10, 0, 1, 0, 0, 0, 2, 3, 0, 104, 105, 0, 97, 0]
    );
}

#[test]
fn assemble_unescapes_quotes() {
    let bytes = assemble("LS X1, \"say \\\"x\\\"\"").unwrap();
    let w = words(&bytes);
    assert_eq!(&w[6..], &[115, 97, 121, 32, 34, 120, 34, 0]);
}

#[test]
fn assemble_resolves_labels_forward_and_backward() {
    let source = "START:\nBEQ X1, X2, END\nBNE X1, X2, START\nEND:\nEXIT";
    let w = words(&assemble(source).unwrap());
    assert_eq!(w[0], 2);
    assert_eq!(w[1], 14);
    assert_eq!(&w[2..6], &[4, 1, 2, 10]);
    assert_eq!(&w[6..10], &[0x15, 1, 2, 2]);
    assert_eq!(&w[10..14], &[9, 0, 0, 0]);
}

#[test]
fn assemble_context_instructions() {
    let source = "PSH C1, X2, \"User\"\nPOP X3, C1\nDRP c4\nMVC C5, C0\nPCX C5";
    let w = words(&assemble(source).unwrap());
    assert_eq!(w[1], 22);
    assert_eq!(&w[2..6], &[0x0F, 1, 2, 0]);
    assert_eq!(&w[6..10], &[0x10, 3, 1, 0]);
    assert_eq!(&w[10..14], &[0x11, 4, 0, 0]);
    assert_eq!(&w[14..18], &[0x12, 5, 0, 0]);
    assert_eq!(&w[18..22], &[0x16, 5, 0, 0]);
    assert_eq!(&w[22..], &[85, 115, 101, 114, 0]);
}

#[test]
fn assemble_generative_and_line_instructions() {
    let source = "INF X1, X2, C3\nEVAL X4, X5, C6\nSIM X7, X8, X9\nRLN X1, X2, X3\nCLN X4, X5";
    let w = words(&assemble(source).unwrap());
    assert_eq!(&w[2..6], &[0x0C, 1, 2, 3]);
    assert_eq!(&w[6..10], &[0x0D, 4, 5, 6]);
    assert_eq!(&w[10..14], &[0x0E, 7, 8, 9]);
    assert_eq!(&w[14..18], &[0x17, 1, 2, 3]);
    assert_eq!(&w[18..22], &[0x18, 4, 5, 0]);
}

#[test]
fn assemble_ignores_comments() {
    let w = words(&assemble("; a comment\nADDI X3, 7 ; add seven\nSUBI X3, 2").unwrap());
    assert_eq!(&w[2..], &[0x14, 3, 7, 0, 0x13, 3, 2, 0]);
}

#[test]
fn assemble_empty_program() {
    assert_eq!(words(&assemble("").unwrap()), vec![2, 2]);
}

#[test]
fn assemble_rejects_register_out_of_range() {
    assert!(matches!(assemble("LI X33, 1"), Err(Exception::Assembler(_))));
}

#[test]
fn assemble_rejects_wrong_register_bank() {
    assert!(matches!(assemble("MV X1, C2"), Err(Exception::Assembler(_))));
}

#[test]
fn assemble_rejects_undefined_label() {
    assert!(matches!(
        assemble("BEQ X1, X2, NOWHERE"),
        Err(Exception::Assembler(_))
    ));
}

#[test]
fn assemble_rejects_invalid_role() {
    assert!(matches!(
        assemble("PSH C1, X1, \"robot\""),
        Err(Exception::Assembler(_))
    ));
}

#[test]
fn assemble_rejects_missing_comma() {
    assert!(matches!(assemble("LI X1 5"), Err(Exception::Assembler(_))));
}

#[test]
fn assemble_rejects_number_too_large() {
    assert!(matches!(
        assemble("LI X1, 4294967296"),
        Err(Exception::Assembler(_))
    ));
}

#[test]
fn assemble_twice_gives_the_same_byte_code() {
    let mut assembler = Assembler::new("LI X1, 5\nEXIT".to_string());
    let first = assembler.assemble().unwrap();
    let second = assembler.assemble().unwrap();
    assert_eq!(first, second);
}

#[test]
fn opcode_numbers_round_trip() {
    assert_eq!(OpCode::AddImmediate.value(), 0x14);
    assert_eq!(OpCode::try_from_u32(0x14).unwrap(), OpCode::AddImmediate);
    assert_eq!(OpCode::try_from_u32(0xFF).unwrap(), OpCode::NoOp);
    assert_eq!(OpCode::from_be_bytes([0, 0, 0, 0x0B]).unwrap(), OpCode::PrintLine);
    assert_eq!(OpCode::Exit.to_be_bytes(), [0, 0, 0, 9]);
    assert_eq!(
        OpCode::from_token_type(TokenType::ReadLine),
        OpCode::ReadLine
    );
    assert_eq!(OpCode::from_token_type(TokenType::Comma), OpCode::NoOp);
}

#[test]
fn opcode_rejects_unknown_numbers() {
    let err = OpCode::try_from_u32(0x19).unwrap_err();
    assert_eq!(err, "Unknown opcode value: 0x19");
}

const ROOM_COMFORT: &str = r#"; Program: Room Comfort Adjustment System
; Objective: Adjust the room's temperature and lighting based on sensor data to achieve optimal physical comfort.
; Output: Adjusted temperature and lighting settings.

; Registers:
; X1: Sensor data (JSON format)
; X2: User feedback (string)
; X3: Temporary register for constructing prompts
; X4: Current temperature information extracted from sensor data
; X5: Classified category of temperature feedback
; X6: Classified intensity of temperature feedback
; X7: Current light intensity information extracted from sensor data
; X8: Classified category of light feedback
; X9: Classified intensity of light feedback
; X10: Adjusted temperature based on feedback
; X11: Validation result for adjusted temperature
; X12: Adjusted light intensity based on feedback
; X13: Output JSON containing the final adjusted temperature and light intensity
; C1: Context stack for sensor data
; C10: Context stack for processing feedback and adjustments
; C30: Saved context for temperature feedback
; C31: Saved context for light feedback

; Load sensor data and user feedback.
LC   X1, "examples/data/room_sensor_data.json"
LS   X2, "It's too dark to read and I am sweating."

PSH  C1, X1, "user"                     ; Push the sensor data the context stack for processing.

; Sense: Build the temperature feedback context for adjustments.
LS   X3, "A sentence that describes the current state of the room with only the temperature information in celsius."
INF  X4, X3, C1

LS   X3, "User feedback:"
PSH  C10, X3, "user"
PSH  C10, X2, "user"                     ; Push the user feedback to the context stack for processing.

LS   X3, "If the user feedback is related to temperature, classify the feedback into one of the following categories: TOO_COLD, TOO_WARM, COMFORTABLE, UNRELATED. Category:"
INF  X5, X3, C10

LS   X3, "If the user feedback is related to temperature, classify the intensity of the feedback into one of the following levels: Mild, Moderate, Severe. Intensity:"
INF  X6, X3, C10

MVC  C10, C0                            ; Clear context stack to classify the temperature feedback.

LS   X3, "Current room state:"
PSH  C10, X3, "user"
PSH  C10, X4, "user"                    ; Push the temperature information for context.

LS   X3, "Category and intensity of the temperature feedback:"
PSH  C10, X3, "user"
PSH  C10, X5, "user"                    ; Push the temperature feedback category for context.
PSH  C10, X6, "user"                    ; Push the temperature feedback intensity for context.

MVC C30, C10                            ; Save the temperature feedback context for later adjustment.

; Sense: Build the light feedback context for adjustments.
LS   X3, "A sentence that describes the current state of the room with only the light intensity information in percentage."
INF  X7, X3, C1

MVC  C10, C0                            ; Clear context stack to classify the light feedback.

LS   X3, "User feedback:"
PSH  C10, X3, "user"
PSH  C10, X2, "user"                    ; Push the user feedback to the context stack for processing.

LS   X3, "If the user feedback is related to light, classify the feedback into one of the following categories: TOO_DARK, TOO_BRIGHT, COMFORTABLE, UNRELATED. Category:"
INF  X8, X3, C10

LS  X3, "If the user feedback is related to light, classify the intensity of the feedback into one of the following levels: Mild, Moderate, Severe. Intensity:"
INF  X9, X3, C10

MVC  C10, C0                            ; Clear context stack to build the light feedback context for adjustments.

LS   X3, "Current room state:"
PSH  C10, X3, "user"
PSH  C10, X7, "user"                    ; Push the light intensity information for context.

LS   X3, "Category and intensity of the light feedback:"
PSH  C10, X3, "user"
PSH  C10, X8, "user"                    ; Push the light feedback category for context.
PSH  C10, X9, "user"                    ; Push the light feedback intensity for context.

MVC  C31, C10                            ; Save the light feedback context for later adjustment.

; Think: Adjust the temperature based on the classified feedback.
LI   X31, 5                             ; Set a retry limit to prevent infinite loops in case of invalid adjustments.

RETRY_TEMP:
MVC  C10, C30                           ; Restore the temperature feedback context for adjustments.
SUBI X31, 1                             ; Decrement the retry counter.

LI   X3, 0
BEQ  X31, X3, ABORT_TEMP                ; If retry limit is reached, abort the operation.

LS   X3, "Intensity Factor: Mild = 1, Moderate = 2, Severe = 3. If 'TOO_COLD', increase temperature by (0.5 * intensity_factor). If 'TOO_WARM', decrease temperature by (0.5 * intensity_factor). If 'COMFORTABLE', no change to temperature. If 'UNRELATED', no change to temperature.\nWhat is the new room temperature?"
INF  X10, X3, C10

; Guardrails: Ensure that the temperature adjustments are within safe and reasonable limits.
MVC  C10, C0                             ; Clear context stack to validate the adjusted temperature.
PSH  C10, X10, "user"                    ; Push the adjusted temperature for validation.

LS   X3, "Is the temperature mentioned above one of the following: 18°C, 18.5°C, 19°C, 19.5°C, 20°C, 20.5°C, 21°C, 21.5°C, 22°C, 22.5°C, 23°C, 23.5°C, 24°C?"
EVAL X11, X3, C10

LI   X3, 0
BEQ  X11, X3, RETRY_TEMP

; Think: Adjust the light intensity based on the classified feedback.
LI   X31, 5                             ; Set a retry limit to prevent infinite loops in case of invalid adjustments.

RETRY_LIGHT:
MVC  C10, C31                           ; Restore the light feedback context for adjustments.
SUBI X31, 1                             ; Decrement the retry counter.

LI   X3, 0
BEQ  X31, X3, ABORT_LIGHT               ; If retry limit is reached, abort the operation.

LS   X3, "Intensity Factor: Mild = 1, Moderate = 2, Severe = 3. If 'TOO_DARK', increase light by (5 * intensity). If 'TOO_BRIGHT', decrease light by (5 * intensity). If 'COMFORTABLE', no change to light. If 'UNRELATED', no change to light.\nWhat is the new light percentage?"
INF  X12, X3, C10

; Guardrails: Ensure that the light intensity adjustments are within safe and reasonable limits.
MVC  C10, C0                             ; Clear context stack to validate the adjusted light intensity.
PSH  C10, X12, "user"                    ; Push the adjusted light intensity for validation.

LS   X3, "Is the light intensity percentage mentioned above between 0% and 100%?"
EVAL X13, X3, C10

LI   X3, 0
BEQ  X13, X3, RETRY_LIGHT

; Act: Implement the adjustments to achieve the desired physical comfort.
MVC  C10, C0                             ; Clear context stack to prepare for output.
PSH  C10, X10, "user"                    ; Push the final adjusted temperature for output.
PSH  C10, X12, "user"                    ; Push the final adjusted light intensity for output.

LS   X3, "{ \"temp_celsius\": number, \"light_percent\": number }"
INF  X13, X3, C10

PLN X13
EXIT

ABORT_TEMP:
LS   X3, "Failed to adjust the room's temperature within the 5 attempts after multiple attempts."
PLN  X3
EXIT

ABORT_LIGHT:
LS   X3, "Failed to adjust the room's light intensity within the 5 attempts after multiple attempts."
PLN  X3
"#;

#[test]
fn readme_room_comfort_program_assembles() {
    let w = words(&assemble(ROOM_COMFORT).unwrap());
    assert_eq!(w[0], 2);
    let data_start = w[1] as usize;
    assert!(data_start <= w.len());
    assert_eq!((data_start - 2) % 4, 0);
    // The first statement loads the sensor data file.
    assert_eq!(w[2], 0x01);
    assert_eq!(w[3], 1);
    let path: Vec<u8> = w[data_start + w[4] as usize..]
        .iter()
        .take_while(|v| **v != 0)
        .map(|v| *v as u8)
        .collect();
    assert_eq!(path, b"examples/data/room_sensor_data.json".to_vec());
}

#[test]
fn readme_room_comfort_program_starts_with_a_file_request() {
    let bytes = assemble(ROOM_COMFORT).unwrap();
    let mut p = Processor::new(Config {
        text_model: "t".to_string(),
        embedding_model: "e".to_string(),
        debug_build: false,
        debug_run: false,
        debug_chat: false,
    });
    p.load(&bytes).unwrap();
    match p.step().unwrap() {
        Some(Request::LoadContent { destination_register, path }) => {
            assert_eq!(destination_register, 1);
            assert_eq!(path, "examples/data/room_sensor_data.json");
        }
        other => panic!("unexpected {:?}", other),
    }
}

#[test]
fn scanner_label_consumes_only_its_colon() {
    let mut s = Scanner::new("l:\nexit".to_string());
    let label = s.scan_token();
    assert_eq!(*label.token_type(), TokenType::Label);
    assert_eq!((label.start(), label.end(), label.line()), (0, 2, 1));
    let exit = s.scan_token();
    assert_eq!(*exit.token_type(), TokenType::Exit);
    assert_eq!((exit.start(), exit.end(), exit.line()), (3, 7, 2));
    assert_eq!(*s.scan_token().token_type(), TokenType::Eof);
}

#[test]
fn scanner_label_followed_by_keyword_on_the_same_line() {
    let mut s = Scanner::new("done: exit".to_string());
    assert_eq!(*s.scan_token().token_type(), TokenType::Label);
    let exit = s.scan_token();
    assert_eq!(*exit.token_type(), TokenType::Exit);
    assert_eq!((exit.start(), exit.end()), (6, 10));
}

#[test]
fn scanner_end_of_input_repeats() {
    let mut s = Scanner::new("é pln".to_string());
    let mut previous_end = 0;
    loop {
        let t = s.scan_token();
        assert!(previous_end <= t.start() && t.start() <= t.end() && t.end() <= "é pln".len());
        assert!(t.line() >= 1);
        previous_end = t.end();
        if *t.token_type() == TokenType::Eof {
            break;
        }
    }
    for _ in 0..3 {
        let t = s.scan_token();
        assert_eq!(*t.token_type(), TokenType::Eof);
        assert_eq!((t.start(), t.end()), ("é pln".len(), "é pln".len()));
    }
}
