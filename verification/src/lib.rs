//! Loader and dispatch core of an Erlang-compatible virtual machine.
//!
//! The loader reads a compiled module (a BEAM file), decodes its bytecode
//! into tagged machine words, resolves labels, and assembles a module image.
//! The dispatch core runs such an image under reduction counting.
//!
//! Every function of the library is verified against its contract.  The
//! contracts speak of mathematical models: a term is its kind
//! ([`term::TermKind`]), a heap the sequence of its words, a module file
//! the sequence of its bytes.
//!
//! The way of a module through the library:
//!
//! * [`container`] finds the chunks of the file, and [`beam_file`] reads
//!   the tables in them;
//! * [`loader`] registers the atoms ([`atom`], [`code_srv`]), and [`etf`]
//!   reads the literals onto the literal heap ([`heap`], [`boxed`]);
//! * [`parse_code`] decodes the operands ([`compact_term`]) and writes the
//!   code, [`fix_labels`] resolves the labels, and [`setup_imports`] sets
//!   up imports and lambdas;
//! * [`load`] does all of this in one call and hands out the [`module`];
//! * [`vm_dispatch`] runs a process ([`runtime_ctx`]) on the module, one
//!   instruction ([`opcodes`]) after the other.
pub mod arith;
pub mod atom;
pub mod beam_file;
pub mod bignum;
pub mod bin_reader;
pub mod bit_writer;
pub mod boxed;
pub mod code_srv;
pub mod compact_term;
pub mod compact_write;
pub mod container;
pub mod container_write;
pub mod etf;
pub mod fail;
pub mod fix_labels;
pub mod gen_atoms;
pub mod gen_op;
pub mod heap;
pub mod jump_table;
pub mod load;
pub mod loader;
pub mod module;
pub mod number;
pub mod opcodes;
pub mod parse_code;
pub mod runtime_ctx;
pub mod setup_imports;
pub mod term;
pub mod tuple;
pub mod vm_dispatch;
