[package]
name = "proof_bench"
version = "0.1.0"
edition = "2021"
publish = false

[dependencies]
sha2 = "=0.10.9"
csv = "=1.4.0"
rand = "=0.8.8"
rayon = "=1.12.0"
once_cell = "=1.21.4"
ff = "=0.13.1"
dusk-bls12_381 = "=0.13.0"
dusk-bytes = "=0.1.7"
# Used through dusk-bytes only. Held at 0.1.2, as dusk-bytes is at 0.1.7:
# the patches after them ask for a newer compiler than this crate builds with.
derive-hex = "=0.1.2"
# For the program alone: the library calls nothing of it.
dusk-plonk = "=0.20.3"
dusk-poseidon = "=0.40.0"
# The hash tree of the binary benchmark is Dusk's published tree, four
# children per node, with Poseidon as its hash: dusk-merkle is the tree,
# poseidon-merkle its items. The project keeps no tree code of its own.
# The program's circuit needs poseidon-merkle's feature `zk`, which is off
# here because it brings dusk-plonk into the library's build.
dusk-merkle = "=0.5.3"
poseidon-merkle = "=0.7.0"
