use aguila::chunk::{
    decodificar_a, decodificar_b, decodificar_bx, decodificar_c, decodificar_op, Chunk, OpCode,
};
use aguila::cifras::{i64_a_texto, u64_a_texto};
use aguila::numbits::{bits_doble_de_i64, entero_de_bits_doble};
use aguila::value::Value;
use aguila::vm::{AnfitrionBasico, VM};

#[test]
fn test_valor_etiquetas() {
    let n = Value::entero(-123);
    assert!(n.es_entero());
    assert!(n.es_numero());
    assert_eq!(n.a_entero(), -123);

    let nulo = Value::nulo();
    assert!(nulo.es_nulo());
    assert!(nulo.es_falsa());
    assert!(!nulo.es_numero());

    let v = Value::logico(true);
    assert!(v.es_logico());
    assert!(v.a_logico());
    let f = Value::logico(false);
    assert!(f.es_falsa());

    let nat = Value::nativa(7);
    assert!(nat.es_nativa());
    assert_eq!(nat.a_nativa_idx(), 7);

    let rec = Value::recurso(3);
    assert!(rec.es_recurso());
    assert_eq!(rec.a_recurso_handle(), 3);

    let obj = Value::from_handle(0x00020005);
    assert!(obj.es_objeto());
    assert_eq!(obj.a_handle(), 0x00020005);
    assert!(!obj.es_entero());
    assert!(!obj.es_nativa());

    let num = Value::numero_bits((2.5f64).to_bits());
    assert!(num.es_numero());
    assert!(!num.es_entero());
}

#[test]
fn test_entero_ida_vuelta_como_numero() {
    // An integer tag widens to the double with the same value and reads
    // back exactly, for positives, negatives and the extremes.
    for &n in &[0i32, 1, -1, 42, -42, 1000000, -1000000, i32::MAX, i32::MIN] {
        let v = Value::entero(n);
        let bits = v.a_numero_bits();
        assert_eq!(bits, (n as f64).to_bits());
        assert_eq!(entero_de_bits_doble(bits), Some(n));
    }
}

#[test]
fn test_bits_doble_contra_hardware() {
    for &n in &[0i64, 1, -1, 7, 4000000000, -4000000000, (1i64 << 52) - 1, -((1i64 << 52) - 1)] {
        assert_eq!(bits_doble_de_i64(n), (n as f64).to_bits());
    }
}

#[test]
fn test_decodificar_recupera_campos() {
    let i = Chunk::encode_abc(OpCode::Sumar, 3, 7, 250);
    assert_eq!(decodificar_op(i), OpCode::Sumar.codigo());
    assert_eq!(decodificar_a(i), 3);
    assert_eq!(decodificar_b(i), 7);
    assert_eq!(decodificar_c(i), 250);

    let j = Chunk::encode_abx(OpCode::CargarConstante, 9, 0xBEEF);
    assert_eq!(decodificar_op(j), OpCode::CargarConstante.codigo());
    assert_eq!(decodificar_a(j), 9);
    assert_eq!(decodificar_bx(j), 0xBEEF);

    // Every opcode byte reads back as its own opcode.
    for b in 0u8..42 {
        let op = OpCode::desde_byte(b).unwrap();
        assert_eq!(op.codigo(), b);
        assert_eq!(OpCode::desde_byte(op.codigo()), Some(op));
    }
    assert_eq!(OpCode::desde_byte(42), None);
}

#[test]
fn test_cargar_constante_bit_a_bit() {
    // A loaded constant reads back bit for bit through the register.
    let mut chunk = Chunk::new();
    let bits: u64 = (6.25f64).to_bits();
    let idx = chunk.add_constant(Value::numero_bits(bits));
    chunk.write(Chunk::encode_abx(OpCode::CargarConstante, 0, idx));
    chunk.write(Chunk::encode_abc(OpCode::Retornar, 0, 0, 0));
    let mut vm = VM::new();
    let mut anfitrion = AnfitrionBasico::new();
    let r = vm.interpretar(&chunk, &mut anfitrion).unwrap();
    assert_eq!(r.0, bits);
}

#[test]
fn test_cifras_decimales() {
    assert_eq!(u64_a_texto(0), "0");
    assert_eq!(u64_a_texto(42), "42");
    assert_eq!(u64_a_texto(18446744073709551615), "18446744073709551615");
    assert_eq!(i64_a_texto(-42), "-42");
    assert_eq!(i64_a_texto(i64::MIN), "-9223372036854775808");
    assert_eq!(i64_a_texto(3628800), "3628800");
}
