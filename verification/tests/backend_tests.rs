use dclang::backend::lower::compile_cnd;
use dclang::backend::types::{is_pow2, log2, size_ty, TypeTable};
use dclang::llvm;
use dclang::x86::Cnd;

#[test]
fn test_size_ty() {
    let decls: Vec<(String, llvm::Ty)> = Vec::new();
    let tdecls = TypeTable::new(&decls);
    assert_eq!(size_ty(&tdecls, &llvm::Ty::I64), 8);
    assert_eq!(size_ty(&tdecls, &llvm::Ty::Ptr(Box::new(llvm::Ty::I8))), 8);
    assert_eq!(
        size_ty(&tdecls, &llvm::Ty::Array(10, Box::new(llvm::Ty::I64))),
        80
    );
}

#[test]
fn test_is_pow2() {
    assert!(is_pow2(1));
    assert!(is_pow2(2));
    assert!(is_pow2(4));
    assert!(is_pow2(8));
    assert!(!is_pow2(3));
    assert!(!is_pow2(6));
}

#[test]
fn test_log2() {
    assert_eq!(log2(1), 0);
    assert_eq!(log2(2), 1);
    assert_eq!(log2(4), 2);
    assert_eq!(log2(8), 3);
}

#[test]
fn test_compile_cnd() {
    assert!(matches!(compile_cnd(&llvm::Cnd::Eq), Cnd::Eq));
    assert!(matches!(compile_cnd(&llvm::Cnd::Ne), Cnd::Neq));
    assert!(matches!(compile_cnd(&llvm::Cnd::Slt), Cnd::Lt));
    assert!(matches!(compile_cnd(&llvm::Cnd::Sle), Cnd::Le));
    assert!(matches!(compile_cnd(&llvm::Cnd::Sgt), Cnd::Gt));
    assert!(matches!(compile_cnd(&llvm::Cnd::Sge), Cnd::Ge));
}
