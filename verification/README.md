# processador_imagens

Processamento de imagens com a parte inteira verificada em Verus.

## Biblioteca (`src/`)

- `imagem`: a fronteira com o crate `image` — os tipos (`DynamicImage`,
  `ImagemRgb`, `ImagemCinza`), os nomes do que cada imagem guarda (linhas de
  pixels) e os invólucros confiados de `dimensions`, `get_pixel`, `put_pixel`,
  `ImageBuffer::new`, `to_luma8` e das conversões para `DynamicImage`.
- `estatistica`: a estatística de ordem de uma janela de bytes (mínimo,
  mediana, máximo) por histograma, e as suas leis (é o elemento da posição `k`
  da janela ordenada, não depende da ordem dos vizinhos, cresce com `k`).
- `vizinhanca`: as coordenadas da vizinhança quadrada de um pixel e a janela
  cortada nas bordas.
- `filtros`: filtros da mediana, do mínimo e do máximo com preenchimento.
- `adaptativo`: o filtro adaptativo da mediana.
- `canais`: separação e junção de canais RGB.
- `decomposicao`: decomposição RGB e limiarização.
- `matriz`: transposição de matrizes guardadas linha a linha.
- `texto`, `interface`, `limites`: caminhos de arquivo, a escolha do processo
  pelo nome, a escolha do resultado a gravar e os limites de tamanho.

## Programa (`app/`)

Linha de comando: abre um PNG, executa um processo pelo nome e grava um
resultado (ou todos num `.zip`). As contas em ponto flutuante (HSV,
logaritmo, potência, luminância perceptiva, filtros em frequência com FFT,
ruído gaussiano) ficam aqui.
