# uzu

Loading models and encoding their linear maps and embeddings, with proofs.

The library plans. It reads the index of a weights file, decides which tensors and
kernels a part of a model needs, checks the tensors against the shapes and types that
are expected, and records in order what a device has to do. It touches neither files
nor devices: `app/` reads the files, carries the records out, and hands a refusal back
as a fault, from which the library tells the error that comes of it.

- `src/backend`: what is recorded (`Context` while a model is loaded, `Encoder` while
  it runs), and the handles of what a device holds.
- `src/parameters`: the index of a weights file, the tree of dotted names over it, and
  lists of what a part of a model is made of.
- `src/linear`: linear maps, and (`laws.rs`) what holds of all of them.
- `src/embedding.rs`: the table that turns tokens into vectors and vectors into logits.
- `src/forward_pass`: data types of a forward pass, and buffers that layers share.
- `src/classifier.rs`: loading a classifier.
- `src/registry.rs`: where models are found and what they are for.
- `src/array_element.rs`: elements that are read into memory, and their bytes.
- `src/config`, `src/weight_matrix.rs`: configurations.

Contracts of what loads have one form: the context and the result after a call equal
what a spec function, named after the call and ending in `outcome`, makes of the context
before it and of the arguments. Where nothing can be refused (`SharedBuffers::new`), the
requests that are added and the result are stated instead. Contracts of what encodes
state a plan, the list of commands: it is recorded up to the first one that is refused.
A call that must not be made on some weights says so in its `requires`. Loading a
classifier can also be attempted (`ClassifierContext::attempt`) on any weights: where
they rule it out, nothing is given back, and what was asked for until then is recorded.
