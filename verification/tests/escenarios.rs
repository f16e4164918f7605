use aguila::chunk::OpCode;
use aguila::ast::{
    Expresion, Literal, OperadorBinario, Parametro, Programa, Sentencia,
};
use aguila::compiler::Compiler;
use aguila::vm::{AnfitrionBasico, VM};

fn ent(n: i32) -> Expresion {
    Expresion::Literal(Literal::Entero(n))
}

fn texto(s: &str) -> Expresion {
    Expresion::Literal(Literal::Texto(s.to_string()))
}

fn var(n: &str) -> Expresion {
    Expresion::Identificador(n.to_string())
}

fn bin(i: Expresion, op: OperadorBinario, d: Expresion) -> Expresion {
    Expresion::Binaria { izq: Box::new(i), op, der: Box::new(d) }
}

fn llamada(f: Expresion, args: Vec<Expresion>) -> Expresion {
    Expresion::Llamada { func: Box::new(f), args }
}

fn correr(programa: Programa) -> Vec<String> {
    let (chunk, tabla) = Compiler::new().compile(&programa).unwrap();
    let mut vm = VM::new();
    vm.instalar_tabla(tabla);
    let mut anfitrion = AnfitrionBasico::new();
    vm.interpretar(&chunk, &mut anfitrion).unwrap();
    anfitrion.salida
}

#[test]
fn test_imprimir_suma() {
    let programa = Programa {
        sentencias: vec![Sentencia::Imprimir(vec![bin(ent(40), OperadorBinario::Suma, ent(2))])],
    };
    assert_eq!(correr(programa), vec!["42".to_string()]);
}

#[test]
fn test_factorial_recursivo() {
    // funcion factorial(n): si n <= 1 { retornar 1 } sino { retornar n * factorial(n - 1) }
    let cuerpo = vec![Sentencia::Si {
        condicion: bin(var("n"), OperadorBinario::MenorIgual, ent(1)),
        entonces: vec![Sentencia::Retornar(Some(ent(1)))],
        sino: Some(vec![Sentencia::Retornar(Some(bin(
            var("n"),
            OperadorBinario::Multiplicacion,
            llamada(var("factorial"), vec![bin(var("n"), OperadorBinario::Resta, ent(1))]),
        )))]),
    }];
    let programa = Programa {
        sentencias: vec![
            Sentencia::Funcion {
                nombre: "factorial".to_string(),
                params: vec![Parametro { nombre: "n".to_string() }],
                cuerpo,
            },
            Sentencia::Imprimir(vec![llamada(var("factorial"), vec![ent(10)])]),
        ],
    };
    assert_eq!(correr(programa), vec!["3628800".to_string()]);
}

#[test]
fn test_fibonacci_recursivo() {
    // funcion fib(n): si n < 2 { retornar n } sino { retornar fib(n-1) + fib(n-2) }
    let cuerpo = vec![Sentencia::Si {
        condicion: bin(var("n"), OperadorBinario::Menor, ent(2)),
        entonces: vec![Sentencia::Retornar(Some(var("n")))],
        sino: Some(vec![Sentencia::Retornar(Some(bin(
            llamada(var("fib"), vec![bin(var("n"), OperadorBinario::Resta, ent(1))]),
            OperadorBinario::Suma,
            llamada(var("fib"), vec![bin(var("n"), OperadorBinario::Resta, ent(2))]),
        )))]),
    }];
    let programa = Programa {
        sentencias: vec![
            Sentencia::Funcion {
                nombre: "fib".to_string(),
                params: vec![Parametro { nombre: "n".to_string() }],
                cuerpo,
            },
            Sentencia::Imprimir(vec![llamada(var("fib"), vec![ent(20)])]),
        ],
    };
    assert_eq!(correr(programa), vec!["6765".to_string()]);
}

#[test]
fn test_try_catch_oops() {
    // try { throw "oops" } catch e { print e }
    let programa = Programa {
        sentencias: vec![Sentencia::TryCatch {
            cuerpo: vec![Sentencia::Lanzar(texto("oops"))],
            variable_error: Some("e".to_string()),
            captura: vec![Sentencia::Imprimir(vec![var("e")])],
            finalmente: None,
        }],
    };
    assert_eq!(correr(programa), vec!["oops".to_string()]);
}

#[test]
fn test_clase_con_herencia() {
    // Parent defines greet -> "hi"; the child overrides it -> "hola".
    let padre = Sentencia::Clase {
        nombre: "Padre".to_string(),
        herencia: vec![],
        cuerpo: vec![Sentencia::Funcion {
            nombre: "greet".to_string(),
            params: vec![],
            cuerpo: vec![Sentencia::Retornar(Some(texto("hi")))],
        }],
    };
    let hijo = Sentencia::Clase {
        nombre: "Hijo".to_string(),
        herencia: vec!["Padre".to_string()],
        cuerpo: vec![Sentencia::Funcion {
            nombre: "greet".to_string(),
            params: vec![],
            cuerpo: vec![Sentencia::Retornar(Some(texto("hola")))],
        }],
    };
    let programa = Programa {
        sentencias: vec![
            padre,
            hijo,
            Sentencia::Asignacion {
                objetivo: var("h"),
                valor: llamada(var("Hijo"), vec![]),
            },
            Sentencia::Imprimir(vec![llamada(
                Expresion::AccesoAtributo {
                    objeto: Box::new(var("h")),
                    atributo: "greet".to_string(),
                },
                vec![],
            )]),
            Sentencia::Asignacion {
                objetivo: var("p"),
                valor: llamada(var("Padre"), vec![]),
            },
            Sentencia::Imprimir(vec![llamada(
                Expresion::AccesoAtributo {
                    objeto: Box::new(var("p")),
                    atributo: "greet".to_string(),
                },
                vec![],
            )]),
        ],
    };
    assert_eq!(correr(programa), vec!["hola".to_string(), "hi".to_string()]);
}

#[test]
fn test_metodo_heredado_del_padre() {
    // A child without an override finds the method along the chain.
    let programa = Programa {
        sentencias: vec![
            Sentencia::Clase {
                nombre: "Padre".to_string(),
                herencia: vec![],
                cuerpo: vec![Sentencia::Funcion {
                    nombre: "greet".to_string(),
                    params: vec![],
                    cuerpo: vec![Sentencia::Retornar(Some(texto("hi")))],
                }],
            },
            Sentencia::Clase {
                nombre: "Hijo".to_string(),
                herencia: vec!["Padre".to_string()],
                cuerpo: vec![],
            },
            Sentencia::Asignacion { objetivo: var("h"), valor: llamada(var("Hijo"), vec![]) },
            Sentencia::Imprimir(vec![llamada(
                Expresion::AccesoAtributo {
                    objeto: Box::new(var("h")),
                    atributo: "greet".to_string(),
                },
                vec![],
            )]),
        ],
    };
    assert_eq!(correr(programa), vec!["hi".to_string()]);
}

#[test]
fn test_division_entera_y_errores() {
    // Truncating division, and division by zero lands in the handler.
    let programa = Programa {
        sentencias: vec![
            Sentencia::Imprimir(vec![bin(ent(7), OperadorBinario::Division, ent(2))]),
            Sentencia::TryCatch {
                cuerpo: vec![Sentencia::Imprimir(vec![bin(
                    ent(1),
                    OperadorBinario::Division,
                    ent(0),
                )])],
                variable_error: Some("e".to_string()),
                captura: vec![Sentencia::Imprimir(vec![var("e")])],
                finalmente: None,
            },
        ],
    };
    assert_eq!(
        correr(programa),
        vec!["3".to_string(), "division por cero".to_string()]
    );
}

#[test]
fn test_suma_desborda_a_doble() {
    // An integer add past the 32-bit payload deoptimizes to the exact
    // double, which the host renders from its bits.
    let programa = Programa {
        sentencias: vec![Sentencia::Imprimir(vec![bin(
            ent(2000000000),
            OperadorBinario::Suma,
            ent(2000000000),
        )])],
    };
    let esperado = (4000000000f64).to_bits().to_string();
    assert_eq!(correr(programa), vec![esperado]);
}

#[test]
fn test_concatenar_textos_y_bucle() {
    // String concatenation, a while loop, and short-circuit and/or.
    let programa = Programa {
        sentencias: vec![
            Sentencia::Asignacion {
                objetivo: var("s"),
                valor: bin(texto("ho"), OperadorBinario::Suma, texto("la")),
            },
            Sentencia::Imprimir(vec![var("s")]),
            Sentencia::Asignacion { objetivo: var("i"), valor: ent(0) },
            Sentencia::Asignacion { objetivo: var("total"), valor: ent(0) },
            Sentencia::Mientras {
                condicion: bin(var("i"), OperadorBinario::Menor, ent(5)),
                cuerpo: vec![
                    Sentencia::Asignacion {
                        objetivo: var("total"),
                        valor: bin(var("total"), OperadorBinario::Suma, var("i")),
                    },
                    Sentencia::Asignacion {
                        objetivo: var("i"),
                        valor: bin(var("i"), OperadorBinario::Suma, ent(1)),
                    },
                ],
            },
            Sentencia::Imprimir(vec![var("total")]),
            Sentencia::Imprimir(vec![bin(
                Expresion::Literal(Literal::Booleano(false)),
                OperadorBinario::Y,
                ent(9),
            )]),
            Sentencia::Imprimir(vec![bin(
                Expresion::Literal(Literal::Booleano(false)),
                OperadorBinario::O,
                ent(9),
            )]),
        ],
    };
    assert_eq!(
        correr(programa),
        vec!["hola", "10", "falso", "9"].iter().map(|s| s.to_string()).collect::<Vec<_>>()
    );
}

#[test]
fn test_listas_y_diccionarios() {
    let programa = Programa {
        sentencias: vec![
            Sentencia::Asignacion {
                objetivo: var("l"),
                valor: Expresion::Lista(vec![ent(1), ent(2), ent(3)]),
            },
            Sentencia::Imprimir(vec![Expresion::AccesoIndice {
                objeto: Box::new(var("l")),
                indice: Box::new(ent(1)),
            }]),
            Sentencia::Asignacion {
                objetivo: Expresion::AccesoIndice {
                    objeto: Box::new(var("l")),
                    indice: Box::new(ent(0)),
                },
                valor: ent(9),
            },
            Sentencia::Imprimir(vec![var("l")]),
            Sentencia::Asignacion {
                objetivo: var("d"),
                valor: Expresion::Diccionario {
                    claves: vec![texto("a")],
                    valores: vec![ent(5)],
                },
            },
            Sentencia::Imprimir(vec![Expresion::AccesoIndice {
                objeto: Box::new(var("d")),
                indice: Box::new(texto("a")),
            }]),
        ],
    };
    assert_eq!(
        correr(programa),
        vec!["2", "[9, 2, 3]", "5"].iter().map(|s| s.to_string()).collect::<Vec<_>>()
    );
}

#[test]
fn test_importar_modulo() {
    // A registered module resolves to a dictionary of its exports, and
    // a property read on it yields the export.
    let programa = Programa {
        sentencias: vec![
            Sentencia::Importar { modulo: "config".to_string(), alias: None },
            Sentencia::Imprimir(vec![Expresion::AccesoAtributo {
                objeto: Box::new(var("config")),
                atributo: "valor".to_string(),
            }]),
            Sentencia::Importar { modulo: "desconocido".to_string(), alias: Some("m".to_string()) },
            Sentencia::Imprimir(vec![var("m")]),
        ],
    };
    let (chunk, tabla) = Compiler::new().compile(&programa).unwrap();
    let mut vm = aguila::vm::VM::new();
    vm.instalar_tabla(tabla);
    vm.registrar_modulo(aguila::vm::Module {
        name: "config".to_string(),
        exports: vec![("valor".to_string(), aguila::value::Value::entero(7))],
    });
    let mut anfitrion = AnfitrionBasico::new();
    vm.interpretar(&chunk, &mut anfitrion).unwrap();
    assert_eq!(anfitrion.salida, vec!["7".to_string(), "nulo".to_string()]);
}

#[test]
fn test_error_global_no_definida() {
    // An unknown global raises its error, catchable like any other.
    let programa = Programa {
        sentencias: vec![Sentencia::TryCatch {
            cuerpo: vec![Sentencia::Imprimir(vec![var("fantasma")])],
            variable_error: Some("e".to_string()),
            captura: vec![Sentencia::Imprimir(vec![var("e")])],
            finalmente: None,
        }],
    };
    assert_eq!(
        correr(programa),
        vec!["variable global no definida: fantasma".to_string()]
    );
}

#[test]
fn test_potencia_y_unarios() {
    let programa = Programa {
        sentencias: vec![
            Sentencia::Imprimir(vec![bin(ent(2), OperadorBinario::Potencia, ent(10))]),
            Sentencia::Imprimir(vec![Expresion::Unaria {
                op: aguila::ast::OperadorUnario::Negativo,
                exp: Box::new(ent(5)),
            }]),
            Sentencia::Imprimir(vec![bin(ent(7), OperadorBinario::Modulo, ent(4))]),
            Sentencia::Imprimir(vec![bin(ent(-7), OperadorBinario::Division, ent(2))]),
        ],
    };
    assert_eq!(
        correr(programa),
        vec!["1024", "-5", "3", "-3"].iter().map(|s| s.to_string()).collect::<Vec<_>>()
    );
}

#[test]
fn test_desbordamiento_de_pila() {
    // Unbounded recursion exhausts the machine's stack: with windows a
    // few registers wide the register file fills before the frame
    // stack does, and with no handler the run reports the overflow.
    let programa = Programa {
        sentencias: vec![
            Sentencia::Funcion {
                nombre: "f".to_string(),
                params: vec![],
                cuerpo: vec![Sentencia::Retornar(Some(llamada(var("f"), vec![])))],
            },
            Sentencia::Expresion(llamada(var("f"), vec![])),
        ],
    };
    let (chunk, tabla) = Compiler::new().compile(&programa).unwrap();
    let mut vm = aguila::vm::VM::new();
    vm.instalar_tabla(tabla);
    let mut anfitrion = AnfitrionBasico::new();
    let r = vm.interpretar(&chunk, &mut anfitrion);
    assert_eq!(r, Err("registro fuera de rango".to_string()));
}

#[test]
fn test_lanzar_a_traves_de_marcos() {
    // A throw inside a callee unwinds to the caller's handler, which
    // resumes with the caller's frame and window restored.
    let programa = Programa {
        sentencias: vec![
            Sentencia::Funcion {
                nombre: "explota".to_string(),
                params: vec![],
                cuerpo: vec![Sentencia::Lanzar(texto("x"))],
            },
            Sentencia::Asignacion { objetivo: var("antes"), valor: ent(5) },
            Sentencia::TryCatch {
                cuerpo: vec![Sentencia::Expresion(llamada(var("explota"), vec![]))],
                variable_error: Some("e".to_string()),
                captura: vec![
                    Sentencia::Imprimir(vec![var("e")]),
                    Sentencia::Imprimir(vec![var("antes")]),
                ],
                finalmente: None,
            },
        ],
    };
    assert_eq!(correr(programa), vec!["x".to_string(), "5".to_string()]);
}

/// A host with a floating-point unit, for programs on doubles.
struct AnfitrionDoble {
    salida: Vec<String>,
}

impl aguila::vm::Anfitrion for AnfitrionDoble {
    fn llamar_nativa(
        &mut self,
        _idx: u32,
        _args: Vec<aguila::value::Value>,
        _tabla: &mut aguila::table::ObjectTable,
    ) -> Result<aguila::value::Value, String> {
        Err("funcion nativa no registrada".to_string())
    }

    fn imprimir(&mut self, texto: &str) {
        self.salida.push(texto.to_string());
    }

    fn formatear_numero(&mut self, bits: u64) -> String {
        format!("{}", f64::from_bits(bits))
    }

    fn op_doble(&mut self, op: aguila::chunk::OpCode, a_bits: u64, b_bits: u64) -> u64 {
        let a = f64::from_bits(a_bits);
        let b = f64::from_bits(b_bits);
        let r = match op {
            OpCode::Sumar => a + b,
            OpCode::Restar => a - b,
            OpCode::Multiplicar => a * b,
            OpCode::Dividir => a / b,
            OpCode::Modulo => a % b,
            OpCode::Potencia => a.powf(b),
            _ => f64::NAN,
        };
        if r.is_nan() {
            f64::NAN.to_bits()
        } else {
            r.to_bits()
        }
    }

    fn comparar_doble(&mut self, op: aguila::chunk::OpCode, a_bits: u64, b_bits: u64) -> bool {
        let a = f64::from_bits(a_bits);
        let b = f64::from_bits(b_bits);
        match op {
            OpCode::Menor => a < b,
            OpCode::MenorIgual => a <= b,
            _ => false,
        }
    }

    fn jit_compilar(
        &mut self,
        _chunk: &aguila::chunk::Chunk,
        _entry_pc: usize,
        _modo_entero: bool,
    ) -> Option<usize> {
        None
    }

    fn jit_llamar(
        &mut self,
        _direccion: usize,
        _entry_pc: usize,
        _arg0: aguila::value::Value,
        _chunk: &aguila::chunk::Chunk,
    ) -> aguila::value::Value {
        aguila::value::Value::nulo()
    }
}

fn decimal(x: f64) -> Expresion {
    Expresion::Literal(Literal::Decimal(x.to_bits()))
}

#[test]
fn test_aritmetica_de_dobles() {
    // With a floating-point host, doubles interoperate with integers:
    // double+double, int+double widening, float division, comparison,
    // and division by a zero double unwinding like the integer case.
    let programa = Programa {
        sentencias: vec![
            Sentencia::Imprimir(vec![bin(decimal(1.5), OperadorBinario::Suma, decimal(2.5))]),
            Sentencia::Imprimir(vec![bin(ent(1), OperadorBinario::Suma, decimal(0.25))]),
            Sentencia::Imprimir(vec![bin(decimal(7.5), OperadorBinario::Division, decimal(2.5))]),
            Sentencia::Imprimir(vec![bin(decimal(1.5), OperadorBinario::Menor, decimal(2.5))]),
            Sentencia::TryCatch {
                cuerpo: vec![Sentencia::Imprimir(vec![bin(
                    decimal(1.0),
                    OperadorBinario::Division,
                    decimal(0.0),
                )])],
                variable_error: Some("e".to_string()),
                captura: vec![Sentencia::Imprimir(vec![var("e")])],
                finalmente: None,
            },
        ],
    };
    let (chunk, tabla) = Compiler::new().compile(&programa).unwrap();
    let mut vm = aguila::vm::VM::new();
    vm.instalar_tabla(tabla);
    let mut anfitrion = AnfitrionDoble { salida: Vec::new() };
    vm.interpretar(&chunk, &mut anfitrion).unwrap();
    assert_eq!(
        anfitrion.salida,
        vec!["4", "1.25", "3", "verdadero", "division por cero"]
            .iter()
            .map(|s| s.to_string())
            .collect::<Vec<_>>()
    );
}
