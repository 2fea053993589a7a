# scepter

The verified core of the Scepter System, a desktop assistant that grows a graph of
concepts with the help of a language model.

- `src/` is the library, checked by Verus: the streaming parsers for the concept
  markup a model writes (`mind_page::prompt`, `mind::prompt`, over the XML event
  stream of `xml`), the prompts that ask for sub-concepts, the plan that turns each parse report into
  node updates and new nodes (`mind_page::plan`), the model-provider
  adapters and the decisions taken on each line of a streamed answer
  (`mind::llm_adapters`, `home_mind`), the page history (`navigation`), the registry
  of local model files (`llama`), the thought-graph node (`page::node`) and the
  colour palette.
- `tests/` exercises the library.
- `app/` is the egui program around it: windows, HTTP requests and threads, serde
  wire formats, and the local model engine.
