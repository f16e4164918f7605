use aguila::object::Obj;
use aguila::resources::ResourceTable;
use aguila::table::ObjectTable;

#[test]
fn test_alloc_and_get() {
    let mut table = ObjectTable::new();
    let handle = table.alojar(Obj::Texto("test".to_string()));

    assert!(table.get(handle).is_some());
}

#[test]
fn test_free_and_reuse() {
    let mut table = ObjectTable::new();
    let handle1 = table.alojar(Obj::Texto("test1".to_string()));
    table.free(handle1);

    let handle2 = table.alojar(Obj::Texto("test2".to_string()));

    assert!(table.get(handle1).is_none());
    assert!(table.get(handle2).is_some());
}

#[test]
fn test_string_pool() {
    let mut table = ObjectTable::new();
    let handle = table.alojar(Obj::Texto("small".to_string()));

    assert!(handle & 0x8000_0000 != 0);
}

#[test]
fn test_handle_viejo_queda_invalido() {
    // A slot of the main arena: a long text stays out of the pool.
    let mut table = ObjectTable::new();
    let texto = "x".repeat(100);
    let h1 = table.alojar(Obj::Texto(texto.clone()));
    assert!(h1 & 0x8000_0000 == 0);
    table.free(h1);
    // The slot is recycled under a new generation: the old handle
    // stays dead even though the slot is live again.
    let h2 = table.alojar(Obj::Lista(Vec::new()));
    let h3 = table.alojar(Obj::Texto(texto));
    let _ = h2;
    let _ = h3;
    assert!(table.get(h1).is_none());
}

#[test]
fn test_pool_inmutable() {
    let mut table = ObjectTable::new();
    let h = table.alojar(Obj::Texto("corto".to_string()));
    // Pooled strings refuse mutation.
    assert!(!table.reemplaza(h, Obj::Texto("otro".to_string())));
    // Arena objects accept it.
    let h2 = table.alojar(Obj::Lista(Vec::new()));
    assert!(table.reemplaza(h2, Obj::Lista(vec![aguila::value::Value::nulo()])));
}

#[test]
fn test_recurso_movido_queda_invalido() {
    // The slot of a moved resource reads as empty afterwards, and the
    // receiving table hands out its own handle.
    let mut padre: ResourceTable<String> = ResourceTable::new();
    let h = padre.alloc_resource("listener".to_string());
    assert!(padre.get_resource(h).is_some());

    let movido = padre.take_resource(h).unwrap();
    assert_eq!(movido, "listener");
    assert!(padre.get_resource(h).is_none());
    assert!(padre.take_resource(h).is_none());

    let mut hijo: ResourceTable<String> = ResourceTable::new();
    let h2 = hijo.alloc_resource(movido);
    assert_eq!(hijo.get_resource(h2).unwrap(), "listener");
}

#[test]
fn test_count_objetos() {
    let mut table = ObjectTable::new();
    let largo = "y".repeat(80);
    let a = table.alojar(Obj::Texto(largo.clone()));
    let _b = table.alojar(Obj::Texto(largo.clone()));
    assert_eq!(table.count(), 2);
    table.free(a);
    assert_eq!(table.count(), 1);
}

#[test]
fn test_handle_ajeno_lee_ausente() {
    // A handle the machine never handed out dereferences to absent,
    // both at the table and through the machine.
    let table = ObjectTable::new();
    assert!(table.get(0xBEEF).is_none());
    let vm = aguila::vm::VM::new();
    assert!(vm.get_object(aguila::value::Value::from_handle(0xBEEF)).is_none());
    assert!(vm.get_object(aguila::value::Value::entero(5)).is_none());
}
