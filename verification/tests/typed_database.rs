#[test]
fn test_generated_code_compiles() {
    let generated_code = r#"
        #[derive(Clone, Debug, PartialEq,
            cell_sdk::serde::Serialize, cell_sdk::serde::Deserialize,
            cell_sdk::rkyv::Archive, cell_sdk::rkyv::Serialize, cell_sdk::rkyv::Deserialize
        )]
        #[archive(check_bytes)]
        #[archive(crate = "cell_sdk::rkyv")]
        #[serde(crate = "cell_sdk::serde")]
        pub struct Product {
            pub id: u64,
            pub name: String,
            pub price: f64,
        }

        #[derive(Clone)]
        pub struct ProductTable {
            storage: std::sync::Arc<std::sync::RwLock<std::collections::HashMap<u64, Product>>>,
        }

        impl ProductTable {
            pub fn new() -> Self {
                Self {
                    storage: std::sync::Arc::new(std::sync::RwLock::new(std::collections::HashMap::new())),
                }
            }

            pub fn save(&self, item: Product) {
                let mut guard = self.storage.write().unwrap();
                guard.insert(item.id.clone(), item);
            }

            pub fn get(&self, id: &u64) -> Option<Product> {
                let guard = self.storage.read().unwrap();
                guard.get(id).cloned()
            }

            pub fn all(&self) -> Vec<Product> {
                let guard = self.storage.read().unwrap();
                guard.values().cloned().collect()
            }
        }
    "#;

    assert!(generated_code.contains("pub struct Product"));
    assert!(generated_code.contains("pub struct ProductTable"));
    assert!(generated_code.contains("impl ProductTable"));
    assert!(generated_code.contains("pub fn save"));
    assert!(generated_code.contains("pub fn get"));
    assert!(generated_code.contains("pub fn all"));
}
